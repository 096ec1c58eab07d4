//! Divisions: which denominators carry a risk, and of what.

use crate::ast::{BinOp, Exp, Loc, ModuleCall};
use crate::domain::denominator::{
    all_positive, by_id, denominator_factors_spec, is_product_spec, place_of_id,
};
use crate::domain::formula::{FormulaFactorView, FormulaFactsView};
use crate::domain::risk::{origin_key_spec, push_new, ObligationKind, RiskKind, RiskOriginView};
use crate::domain::state::AbstractStateView;
use crate::domain::value::ValueStateView;
use crate::options::SecurityMathMode;
use crate::rules::RuleCtxView;
use crate::rules::weak_denominator::{check_spec, discharged_by_factors};
use crate::text::contains_text;
use crate::transfer::binop::{binop_value_spec, merged_spec, raw_result_spec};
use crate::transfer::call::{
    call_denominator_spec, call_values_spec, default_returns_spec, passed_on_spec,
    return_value_spec, with_callee_origins_spec,
};
use crate::transfer::context::Ctx;
use crate::transfer::describe::describe_spec;
use crate::transfer::emit::weak_denominator_spec;
use crate::transfer::risks::{
    carries, coherent, lemma_push_new, lemma_raw_result, lemma_return_values,
    lemma_without_suspicious,
};
use vstd::prelude::*;

verus! {

/// Whether a factor is the first of its id.
pub open spec fn is_first(factors: Seq<FormulaFactorView>, i: int) -> bool {
    &&& 0 <= i < factors.len()
    &&& forall|j: int| 0 <= j < i ==> (#[trigger] factors[j]).id != factors[i].id
}

/// Whether some factor, the first of its id, is not known to be above zero.
pub open spec fn has_open_factor(factors: Seq<FormulaFactorView>) -> bool {
    exists|i: int| #[trigger] is_first(factors, i) && !factors[i].strict_positive
}

/// Whether two factors have different ids.
pub open spec fn has_two_factors(factors: Seq<FormulaFactorView>) -> bool {
    exists|i: int, j: int|
        #![trigger factors[i], factors[j]]
        0 <= i < factors.len() && 0 <= j < factors.len() && factors[i].id != factors[j].id
}

/// Whether a denominator with this formula is a product.
pub open spec fn multiplies(facts: FormulaFactsView) -> bool {
    has_two_factors(facts.factors) || (facts.root_expr is Some && facts.root_expr->0.op is Mul)
}

/// Whether there is anything to a numerator but its range: a factor, or an expression.
pub open spec fn has_formula(numerator: ValueStateView) -> bool {
    numerator.formula_facts is Some && (numerator.formula_facts->0.factors.len() > 0
        || numerator.formula_facts->0.root_expr is Some)
}

/// Whether the ids of the factors increase.
spec fn ids_increase(listed: Seq<FormulaFactorView>) -> bool {
    forall|a: int, b: int|
        #![trigger listed[a], listed[b]]
        0 <= a < b < listed.len() ==> listed[a].id < listed[b].id
}

/// Whether a factor is among the first `n`, and the first of its id.
#[verifier::opaque]
spec fn comes_from(f: FormulaFactorView, factors: Seq<FormulaFactorView>, n: nat) -> bool {
    exists|i: int| i < n && #[trigger] is_first(factors, i) && factors[i] == f
}

/// Whether each listed factor is one of the first `n` that is the first of its id.
#[verifier::opaque]
spec fn all_come_from(
    listed: Seq<FormulaFactorView>,
    factors: Seq<FormulaFactorView>,
    n: nat,
) -> bool {
    forall|a: int| 0 <= a < listed.len() ==> comes_from(#[trigger] listed[a], factors, n)
}

/// Whether each of the first `n` factors that is the first of its id is listed.
#[verifier::opaque]
spec fn all_are_listed(
    listed: Seq<FormulaFactorView>,
    factors: Seq<FormulaFactorView>,
    n: nat,
) -> bool {
    forall|i: int| #[trigger] is_first(factors, i) && i < n ==> listed.contains(factors[i])
}

proof fn lemma_place_of_id(listed: Seq<FormulaFactorView>, id: u64, from: nat)
    requires
        from <= listed.len(),
        ids_increase(listed),
        forall|a: int| 0 <= a < from ==> (#[trigger] listed[a]).id < id,
    ensures
        ({
            let at = place_of_id(listed, id, from);
            &&& from <= at <= listed.len()
            &&& forall|a: int| 0 <= a < at ==> (#[trigger] listed[a]).id < id
            &&& forall|a: int| at <= a < listed.len() ==> (#[trigger] listed[a]).id >= id
            &&& forall|a: int| at < a < listed.len() ==> (#[trigger] listed[a]).id > id
        }),
    decreases listed.len() - from,
{
    if from < listed.len() && listed[from as int].id < id {
        lemma_place_of_id(listed, id, from + 1);
    } else if from < listed.len() {
        assert forall|a: int| from < a < listed.len() implies (#[trigger] listed[a]).id > id by {
            assert(listed[from as int].id < listed[a].id);
        }
    }
}

/// A factor whose id is listed already is not the first of its id, and one whose id is not is.
proof fn lemma_next_is_first(listed: Seq<FormulaFactorView>, factors: Seq<FormulaFactorView>, n: nat)
    requires
        n < factors.len(),
        all_come_from(listed, factors, n),
        all_are_listed(listed, factors, n),
    ensures
        is_first(factors, n as int) <==> forall|a: int|
            0 <= a < listed.len() ==> (#[trigger] listed[a]).id != factors[n as int].id,
{
    reveal(all_come_from);
    reveal(all_are_listed);
    let f = factors[n as int];
    if is_first(factors, n as int) {
        assert forall|a: int| 0 <= a < listed.len() implies (#[trigger] listed[a]).id != f.id by {
            assert(comes_from(listed[a], factors, n));
            reveal(comes_from);
            let i = choose|i: int|
                i < n && #[trigger] is_first(factors, i) && factors[i] == listed[a];
            assert(factors[i].id != f.id);
        }
    } else {
        let j = choose|j: int| 0 <= j < n && (#[trigger] factors[j]).id == f.id;
        lemma_first_of(factors, j);
        let k = choose|k: int|
            k <= j && #[trigger] is_first(factors, k) && factors[k].id == factors[j].id;
        let a = choose|a: int| 0 <= a < listed.len() && listed[a] == factors[k];
        assert(listed[a].id == f.id);
    }
}

proof fn lemma_insert_listed(
    listed: Seq<FormulaFactorView>,
    factors: Seq<FormulaFactorView>,
    n: nat,
    at: int,
)
    requires
        n < factors.len(),
        0 <= at <= listed.len(),
        is_first(factors, n as int),
        all_come_from(listed, factors, n),
        all_are_listed(listed, factors, n),
    ensures
        all_come_from(listed.insert(at, factors[n as int]), factors, n + 1),
        all_are_listed(listed.insert(at, factors[n as int]), factors, n + 1),
{
    reveal(all_come_from);
    reveal(all_are_listed);
    reveal(comes_from);
    let f = factors[n as int];
    let now = listed.insert(at, f);
    assert forall|a: int| 0 <= a < now.len() implies comes_from(#[trigger] now[a], factors, n + 1) by {
        if a == at {
            assert(is_first(factors, n as int) && factors[n as int] == now[a]);
        } else {
            let a2 = if a < at {
                a
            } else {
                a - 1
            };
            assert(now[a] == listed[a2]);
            assert(comes_from(listed[a2], factors, n));
        }
    }
    assert forall|i: int| #[trigger] is_first(factors, i) && i < n + 1 implies now.contains(
        factors[i],
    ) by {
        if i == n {
            assert(now[at] == f);
        } else {
            let a = choose|a: int| 0 <= a < listed.len() && listed[a] == factors[i];
            let a2 = if a < at {
                a
            } else {
                a + 1
            };
            assert(now[a2] == factors[i]);
        }
    }
}

proof fn lemma_by_id(factors: Seq<FormulaFactorView>, n: nat)
    requires
        n <= factors.len(),
    ensures
        ids_increase(by_id(factors, n)),
        all_come_from(by_id(factors, n), factors, n),
        all_are_listed(by_id(factors, n), factors, n),
    decreases n,
{
    if n == 0 {
        reveal(all_come_from);
        reveal(all_are_listed);
    } else {
        let before = by_id(factors, (n - 1) as nat);
        let f = factors[n - 1];
        lemma_by_id(factors, (n - 1) as nat);
        lemma_place_of_id(before, f.id, 0);
        lemma_next_is_first(before, factors, (n - 1) as nat);
        let at = place_of_id(before, f.id, 0) as int;
        if at < before.len() && before[at].id == f.id {
            reveal(all_come_from);
            reveal(all_are_listed);
            assert forall|a: int| 0 <= a < before.len() implies comes_from(
                #[trigger] before[a],
                factors,
                n,
            ) by {
                assert(comes_from(before[a], factors, (n - 1) as nat));
                reveal(comes_from);
            }
        } else {
            assert forall|a: int| 0 <= a < before.len() implies (#[trigger] before[a]).id != f.id by {}
            lemma_insert_listed(before, factors, (n - 1) as nat, at);
            let now = before.insert(at, f);
            assert forall|a: int, b: int|
                #![trigger now[a], now[b]]
                0 <= a < b < now.len() implies now[a].id < now[b].id by {
                let a2 = if a < at {
                    a
                } else {
                    a - 1
                };
                let b2 = if b < at {
                    b
                } else {
                    b - 1
                };
                if a != at && b != at {
                    assert(now[a] == before[a2] && now[b] == before[b2]);
                } else if a == at {
                    assert(now[b] == before[b2]);
                } else {
                    assert(now[a] == before[a2]);
                }
            }
        }
    }
}

/// Some factor is the first of the id of any.
proof fn lemma_first_of(factors: Seq<FormulaFactorView>, j: int)
    requires
        0 <= j < factors.len(),
    ensures
        exists|k: int| k <= j && #[trigger] is_first(factors, k) && factors[k].id == factors[j].id,
    decreases j,
{
    if !is_first(factors, j) {
        let i = choose|i: int| 0 <= i < j && (#[trigger] factors[i]).id == factors[j].id;
        lemma_first_of(factors, i);
    }
}

/// The factors that a division asks about, from the formula of its denominator.
proof fn lemma_factors(facts: FormulaFactsView)
    ensures
        ({
            let known = by_id(facts.factors, facts.factors.len());
            &&& known.len() == 0 <==> facts.factors.len() == 0
            &&& all_positive(known) <==> !has_open_factor(facts.factors)
            &&& known.len() >= 2 <==> has_two_factors(facts.factors)
        }),
{
    let factors = facts.factors;
    let known = by_id(factors, factors.len());
    lemma_by_id(factors, factors.len());
    lemma_listed_factors(known, factors);
}

proof fn lemma_listed_factors(known: Seq<FormulaFactorView>, factors: Seq<FormulaFactorView>)
    requires
        ids_increase(known),
        all_come_from(known, factors, factors.len()),
        all_are_listed(known, factors, factors.len()),
    ensures
        known.len() == 0 <==> factors.len() == 0,
        all_positive(known) <==> !has_open_factor(factors),
        known.len() >= 2 <==> has_two_factors(factors),
{
    reveal(all_come_from);
    reveal(all_are_listed);
    if factors.len() > 0 {
        assert(is_first(factors, 0));
        assert(known.contains(factors[0]));
    }
    if known.len() > 0 {
        let i = lemma_source(known, factors, 0);
    }
    if has_open_factor(factors) {
        let i = choose|i: int| #[trigger] is_first(factors, i) && !factors[i].strict_positive;
        assert(known.contains(factors[i]));
        let a = choose|a: int| 0 <= a < known.len() && known[a] == factors[i];
        assert(!known[a].strict_positive);
    }
    if !all_positive(known) {
        let a = choose|a: int| 0 <= a < known.len() && !(#[trigger] known[a]).strict_positive;
        let i = lemma_source(known, factors, a);
        assert(is_first(factors, i) && !factors[i].strict_positive);
    }
    if has_two_factors(factors) {
        let (i, j) = choose|i: int, j: int|
            #![trigger factors[i], factors[j]]
            0 <= i < factors.len() && 0 <= j < factors.len() && factors[i].id != factors[j].id;
        lemma_first_of(factors, i);
        lemma_first_of(factors, j);
        let p = choose|p: int|
            p <= i && #[trigger] is_first(factors, p) && factors[p].id == factors[i].id;
        let q = choose|q: int|
            q <= j && #[trigger] is_first(factors, q) && factors[q].id == factors[j].id;
        assert(known.contains(factors[p]) && known.contains(factors[q]));
        let a = choose|a: int| 0 <= a < known.len() && known[a] == factors[p];
        let b = choose|b: int| 0 <= b < known.len() && known[b] == factors[q];
        assert(a != b);
    }
    if known.len() >= 2 {
        assert(known[0].id < known[1].id);
        let i = lemma_source(known, factors, 0);
        let j = lemma_source(known, factors, 1);
        assert(factors[i].id != factors[j].id);
    }
}

/// Where a listed factor comes from.
proof fn lemma_source(
    known: Seq<FormulaFactorView>,
    factors: Seq<FormulaFactorView>,
    a: int,
) -> (i: int)
    requires
        all_come_from(known, factors, factors.len()),
        0 <= a < known.len(),
    ensures
        is_first(factors, i),
        factors[i] == known[a],
{
    reveal(all_come_from);
    assert(comes_from(known[a], factors, factors.len()));
    reveal(comes_from);
    choose|i: int|
        i < factors.len() && #[trigger] is_first(factors, i) && factors[i] == known[a]
}

/// What is asked of a denominator is whether its known factors are above zero, or where none is
/// known whether its range is.
proof fn lemma_asked(
    denominator: ValueStateView,
    text: Seq<char>,
    function: Seq<char>,
    loc: Loc,
)
    ensures
        ({
            let factors = denominator_factors_spec(denominator, text, function, loc);
            let facts = denominator.formula_facts;
            &&& is_product_spec(facts, factors) <==> facts is Some && multiplies(facts->0)
            &&& if facts is Some && facts->0.factors.len() > 0 {
                all_positive(factors) <==> !has_open_factor(facts->0.factors)
            } else {
                all_positive(factors) <==> denominator.interval.lower is Some
                    && denominator.interval.lower->0@ > 0
            }
        }),
{
    reveal(denominator_factors_spec);
    let factors = denominator_factors_spec(denominator, text, function, loc);
    if let Some(facts) = denominator.formula_facts {
        lemma_factors(facts);
    }
    if factors.len() == 1 {
        assert(all_positive(factors) <==> factors[0].strict_positive);
    }
}

/// What a denominator still owes. One of which only the range is known may be zero. One with known
/// factors owes nothing once each of them is above zero; otherwise it may be zero where its range
/// holds zero, and where it is a product each factor has to be above zero by itself, as soon as
/// there is a formula to the numerator, or in deep mode.
pub open spec fn owes(
    numerator: ValueStateView,
    denominator: ValueStateView,
    mode: SecurityMathMode,
) -> Option<ObligationKind> {
    let may_be_zero = denominator.interval.lower is None || denominator.interval.lower->0@ == 0;
    let known = denominator.formula_facts is Some && denominator.formula_facts->0.factors.len() > 0;
    if known && !has_open_factor(denominator.formula_facts->0.factors) {
        None
    } else if may_be_zero {
        Some(ObligationKind::NonZeroDivisor)
    } else if known && multiplies(denominator.formula_facts->0) && (mode is Deep || has_formula(
        numerator,
    )) {
        Some(ObligationKind::IndependentFactorPositivity)
    } else {
        None
    }
}

/// A division carries the risk of a weak denominator exactly where its denominator owes something,
/// and the risk says what. The threshold is zero where the denominator may be zero, and there is
/// none otherwise; the evidence is firm where the denominator has a formula.
pub proof fn denominators_owe_what_is_reported(
    c: Ctx,
    exp: Exp,
    numerator: ValueStateView,
    denominator: ValueStateView,
    denominator_exp: Exp,
    st: AbstractStateView,
)
    ensures
        ({
            let risk = weak_denominator_spec(c, exp, numerator, denominator, denominator_exp, st);
            let owed = owes(numerator, denominator, c.math_mode);
            &&& risk is Some <==> owed is Some
            &&& risk is Some ==> {
                &&& risk->0.kind is ReachableWeakDenominator
                &&& risk->0.loc == exp.loc
                &&& risk->0.key == origin_key_spec(RiskKind::ReachableWeakDenominator, exp.loc)
                &&& risk->0.obligation_kind == owed->0
                &&& risk->0.threshold is Some <==> owed->0 is NonZeroDivisor
                &&& risk->0.threshold is Some ==> risk->0.threshold->0@ == 0
                &&& risk->0.proof_mode is Abstract <==> denominator.formula_facts is Some
                &&& !risk->0.guard_mismatch
            }
        }),
{
    reveal(weak_denominator_spec);
    lemma_asked(
        denominator,
        describe_spec(c.function, denominator_exp),
        c.function.key.name@,
        denominator_exp.loc,
    );
}

/// The rule by itself says the same, but for a product whose two given factors are both known to be
/// above zero.
pub proof fn denominator_rule_agrees(
    ctx: RuleCtxView,
    numerator: ValueStateView,
    denominator: ValueStateView,
    denominator_loc: Loc,
    text: Seq<char>,
    helper: bool,
    mode: SecurityMathMode,
    lhs: Option<ValueStateView>,
    rhs: Option<ValueStateView>,
)
    ensures
        ({
            let proved = lhs is Some && rhs is Some && lhs->0.interval.lower is Some
                && lhs->0.interval.lower->0@ > 0 && rhs->0.interval.lower is Some
                && rhs->0.interval.lower->0@ > 0;
            let product = denominator.formula_facts is Some && multiplies(
                denominator.formula_facts->0,
            );
            let risk = check_spec(
                ctx,
                numerator,
                denominator,
                denominator_loc,
                text,
                helper,
                mode,
                discharged_by_factors(lhs, rhs),
            );
            let owed = owes(numerator, denominator, mode);
            &&& risk is Some <==> owed is Some && !(proved && product)
            &&& risk is Some ==> {
                &&& risk->0.kind is ReachableWeakDenominator
                &&& risk->0.loc == ctx.exp_loc
                &&& risk->0.obligation_kind == owed->0
                &&& risk->0.threshold is Some <==> owed->0 is NonZeroDivisor
                &&& risk->0.proof_mode is Abstract <==> denominator.formula_facts is Some
                &&& risk->0.helper_like == helper
            }
        }),
{
    lemma_asked(denominator, text, ctx.fn_name, denominator_loc);
}

/// A division by a product with a factor that is not known to be above zero carries the risk of a
/// weak denominator, in fast mode too, as soon as there is a formula to the numerator: it does not
/// help that the product as a whole is known to be above zero.
pub proof fn products_need_each_factor(
    c: Ctx,
    exp: Exp,
    lhs_exp: Exp,
    lhs: ValueStateView,
    rhs_exp: Exp,
    rhs: ValueStateView,
    st: AbstractStateView,
    i: int,
)
    requires
        coherent(lhs.risky_origins),
        coherent(rhs.risky_origins),
        rhs.formula_facts is Some,
        is_first(rhs.formula_facts->0.factors, i),
        !rhs.formula_facts->0.factors[i].strict_positive,
        multiplies(rhs.formula_facts->0),
        c.math_mode is Deep || has_formula(lhs),
    ensures
        carries(
            binop_value_spec(c, exp, lhs_exp, lhs, BinOp::Div, rhs_exp, rhs, st).risky_origins,
            origin_key_spec(RiskKind::ReachableWeakDenominator, exp.loc),
        ),
{
    divisions_carry_what_they_owe(c, exp, lhs_exp, lhs, rhs_exp, rhs, st);
}

/// The value of a division carries the risk of a weak denominator where the denominator owes
/// something; where it owes nothing the division adds no risk.
pub proof fn divisions_carry_what_they_owe(
    c: Ctx,
    exp: Exp,
    lhs_exp: Exp,
    lhs: ValueStateView,
    rhs_exp: Exp,
    rhs: ValueStateView,
    st: AbstractStateView,
)
    requires
        coherent(lhs.risky_origins),
        coherent(rhs.risky_origins),
    ensures
        ({
            let value = binop_value_spec(c, exp, lhs_exp, lhs, BinOp::Div, rhs_exp, rhs, st);
            let key = origin_key_spec(RiskKind::ReachableWeakDenominator, exp.loc);
            &&& owes(lhs, rhs, c.math_mode) is Some ==> carries(value.risky_origins, key)
            &&& owes(lhs, rhs, c.math_mode) is None && carries(value.risky_origins, key)
                ==> carries(lhs.join_spec(rhs).risky_origins, key)
        }),
{
    denominators_owe_what_is_reported(c, exp, lhs, rhs, rhs_exp, st);
    let key = origin_key_spec(RiskKind::ReachableWeakDenominator, exp.loc);
    let raw = raw_result_spec(c, exp, lhs_exp, lhs, BinOp::Div, rhs_exp, rhs, st);
    let base = merged_spec(c, exp, lhs, rhs).risky_origins;
    assert(base == lhs.join_spec(rhs).risky_origins) by {
        reveal(merged_spec);
    }
    reveal(raw_result_spec);
    if let Some(origin) = weak_denominator_spec(c, exp, lhs, rhs, rhs_exp, st) {
        lemma_push_new(base, origin);
    }
    lemma_raw_result(c, exp, lhs_exp, lhs, BinOp::Div, rhs_exp, rhs, st);
    lemma_without_suspicious(raw.risky_origins, RiskKind::ReachableWeakDenominator, exp.loc);
    reveal(binop_value_spec);
    let value = binop_value_spec(c, exp, lhs_exp, lhs, BinOp::Div, rhs_exp, rhs, st);
    if owes(lhs, rhs, c.math_mode) is None && carries(value.risky_origins, key) {
        let k = choose|k: int|
            0 <= k < value.risky_origins.len() && (#[trigger] value.risky_origins[k]).key == key;
        if value.risky_origins != raw.risky_origins {
            raw.risky_origins.lemma_filter_contains_rev(
                |o: RiskOriginView| o.kind !is SuspiciousBitwiseArithmetic,
                value.risky_origins[k],
            );
        }
        let m = choose|m: int|
            0 <= m < raw.risky_origins.len() && raw.risky_origins[m] == value.risky_origins[k];
        assert(base[m].key == key);
    }
}

/// A call to an analyzed function whose name holds `div` stands for a division of its first
/// argument by its second: what it returns carries the risk where the second owes something.
pub proof fn calls_named_div_divide(
    c: Ctx,
    call: ModuleCall,
    exp: Exp,
    arguments: Seq<ValueStateView>,
    st: AbstractStateView,
    i: int,
)
    requires
        c.summary_of(call.callee) is Some,
        0 <= i < c.summary_of(call.callee)->0.len(),
        contains_text(call.callee.name@, "div"@),
        arguments.len() >= 2,
        call.arguments@.len() >= 2,
        owes(arguments[0], arguments[1], c.math_mode) is Some,
    ensures
        carries(
            call_values_spec(c, call, exp, arguments, st)[i].risky_origins,
            origin_key_spec(RiskKind::ReachableWeakDenominator, exp.loc),
        ),
{
    let summary = c.summary_of(call.callee)->0;
    lemma_return_values(c, call, exp, arguments, summary, summary.len(), st);
    denominators_owe_what_is_reported(
        c,
        exp,
        arguments[0],
        arguments[1],
        call.arguments@[1],
        st,
    );
    reveal(return_value_spec);
    let origin = call_denominator_spec(c, call, exp, arguments, st)->0;
    let (deps, passed) = passed_on_spec(
        summary[i].parameter_dependencies,
        arguments,
        arguments.len(),
        (if i < default_returns_spec(exp.ty).len() {
            default_returns_spec(exp.ty)[i]
        } else {
            ValueStateView::top_spec()
        }).risky_origins,
    );
    let origins = with_callee_origins_spec(
        passed,
        summary[i].risky_origins,
        summary[i].risky_origins.len(),
        arguments,
    );
    lemma_push_new(origins, origin);
    assert(call_values_spec(c, call, exp, arguments, st)[i].risky_origins == push_new(
        origins,
        origin,
    ));
}

} // verus!
