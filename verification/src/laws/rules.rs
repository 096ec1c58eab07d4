//! The rules one by one: when they find a risk, and what they say of it.

use crate::ast::{Loc, Var};
use crate::domain::risk::{origin_key_spec, PathFactView, RiskKind, RiskOriginView};
use crate::domain::state::AbstractStateView;
use crate::domain::value::ValueStateView;
use crate::domain::widths::{is_width, lemma_pow2_widths, uint_max_is_all_ones};
use crate::laws::calls::has_positive_factors;
use crate::laws::operations::{lossy_shifts_have_open_low_bits, may_lose_low_bits};
use crate::laws::roundings::was_rounded_both_ways;
use crate::rules::{
    invalid_shift_count, lossy_right_shift, narrow_cast, rounding_mismatch, suspicious_bitwise,
    FakeCheckedShiftRule, InvalidShiftCountRule, LossyRightShiftRule, NarrowCastRule,
    RoundingMismatchRule, Rule, RuleCtxView, ShiftTruncationRule, SuspiciousBitwiseArithmeticRule,
    WeakDenominatorRule,
};
use crate::smt::facts_for_var;
use crate::smt::bounds::{proven_in_range_spec, proven_non_zero_spec};
use crate::smt::product::{definitely_zero_spec, proven_lower_bound_spec};
use crate::smt::shift::{fact_proves_safe, path_proves_safe_spec};
use crate::text::{decimal, joined};
use crate::u256::{full, lemma_u256_injective, lemma_u256_of, lemma_u256_view, U256};
use vstd::arithmetic::power2::pow2;
use vstd::prelude::*;

verus! {

/// Whether a risk of this kind at this place is described as that of the function where it was
/// found.
pub open spec fn is_found_by(risk: RiskOriginView, ctx: RuleCtxView, kind: RiskKind) -> bool {
    &&& risk.kind == kind
    &&& risk.loc == ctx.exp_loc
    &&& risk.key == origin_key_spec(kind, ctx.exp_loc)
    &&& risk.path_facts == ctx.path_facts
    &&& risk.helper_name == Some(ctx.fn_name)
    &&& !risk.helper_like
    &&& !risk.guard_mismatch
    &&& risk.obligation_kind is Absent
}

/// A shift count is invalid exactly where it is not below the width.
pub proof fn counts_have_to_be_below_the_width(
    ctx: RuleCtxView,
    rhs: ValueStateView,
    width: u16,
    amount: u8,
)
    ensures
        ({
            let risk = invalid_shift_count::check_spec(ctx, rhs, width, amount);
            &&& risk is Some <==> amount >= width
            &&& risk is Some ==> {
                &&& is_found_by(risk->0, ctx, RiskKind::InvalidShiftCount)
                &&& risk->0.width == Some(width)
                &&& risk->0.shift_amount == Some(amount)
                &&& risk->0.threshold is None
                &&& risk->0.failed_condition == decimal(amount as nat) + " < "@ + decimal(
                    width as nat,
                )
                &&& risk->0.proof_mode is Abstract
            }
        }),
{
}

/// A cast may fail exactly where the range of the value does not show that it fits.
pub proof fn casts_have_to_fit(
    ctx: RuleCtxView,
    source: ValueStateView,
    text: Seq<char>,
    width: u16,
)
    requires
        is_width(width),
    ensures
        ({
            let risk = narrow_cast::check_spec(ctx, source, text, width);
            let max = (pow2(width as nat) - 1) as nat;
            &&& risk is Some <==> source.interval.upper is None || source.interval.upper->0@ > max
            &&& risk is Some ==> {
                &&& is_found_by(risk->0, ctx, RiskKind::ReachableNarrowCast)
                &&& risk->0.width == Some(width)
                &&& risk->0.threshold is Some && risk->0.threshold->0@ == max
                &&& risk->0.failed_condition == text + " <= "@ + decimal(max)
                &&& risk->0.expr_text == text
                &&& risk->0.source_name == text
                &&& risk->0.proof_mode is Abstract
            }
        }),
{
    uint_max_is_all_ones(width);
}

/// A right shift may lose bits exactly where one of those that it discards is not known to be zero.
pub proof fn right_shifts_have_to_be_exact(
    ctx: RuleCtxView,
    lhs: ValueStateView,
    text: Seq<char>,
    width: u16,
    amount: u8,
)
    requires
        is_width(width),
        amount < width,
    ensures
        ({
            let risk = lossy_right_shift::check_spec(ctx, lhs, text, width, amount);
            &&& risk is Some <==> may_lose_low_bits(lhs, amount as nat)
            &&& risk is Some ==> {
                &&& is_found_by(risk->0, ctx, RiskKind::ReachableLossyRightShift)
                &&& risk->0.width == Some(width)
                &&& risk->0.shift_amount == Some(amount)
                &&& risk->0.rounding_mode is Some && risk->0.rounding_mode->0 is RoundDown
                &&& risk->0.expr_text == text
                &&& risk->0.proof_mode is Abstract
            }
        }),
{
    lossy_shifts_have_open_low_bits(lhs, width, amount);
}

/// A bitwise result is suspicious exactly where it is not known.
pub proof fn bitwise_results_have_to_be_known(
    ctx: RuleCtxView,
    result: ValueStateView,
    text: Seq<char>,
)
    ensures
        ({
            let risk = suspicious_bitwise::check_spec(ctx, result, text);
            &&& risk is Some <==> result.exact_value_spec() is None
            &&& risk is Some ==> {
                &&& is_found_by(risk->0, ctx, RiskKind::SuspiciousBitwiseArithmetic)
                &&& risk->0.expr_text == text
                &&& risk->0.proof_mode is Heuristic
                &&& risk->0.failed_condition == "exact range of "@ + text + " is known"@
            }
        }),
{
}

/// Rounding does not match exactly where a value that is more than a number was rounded in different
/// directions.
pub proof fn roundings_have_to_match(
    ctx: RuleCtxView,
    value: ValueStateView,
    sink_loc: Loc,
    detail: Option<Seq<char>>,
)
    ensures
        ({
            let risk = rounding_mismatch::check_spec(ctx, value, sink_loc, detail);
            &&& risk is Some <==> was_rounded_both_ways(value)
            &&& risk is Some ==> {
                let facts = value.formula_facts->0;
                let steps = "rounding trace: "@ + joined(facts.rounding_trace, " -> "@);
                &&& risk->0.kind is ReachableRoundingMismatch
                &&& risk->0.loc == sink_loc
                &&& risk->0.obligation_kind is RoundingConsistency
                &&& risk->0.rounding_mode == Some(facts.rounding_mode)
                &&& risk->0.threshold is None
                &&& detail is Some && facts.rounding_trace.len() > 0 ==> risk->0.expr_text
                    == detail->0 + "; "@ + steps
                &&& detail is None && facts.rounding_trace.len() > 0 ==> risk->0.expr_text == steps
                &&& detail is Some && facts.rounding_trace.len() == 0 ==> risk->0.expr_text
                    == detail->0
            }
        }),
{
}

/// The rules of the registry stand for the kinds that they are named after, and say what they look
/// for.
pub proof fn registered_rules_stand_for_their_kind(
    truncation: ShiftTruncationRule,
    fake: FakeCheckedShiftRule,
    count: InvalidShiftCountRule,
    cast: NarrowCastRule,
    lossy: LossyRightShiftRule,
    bitwise: SuspiciousBitwiseArithmeticRule,
    denominator: WeakDenominatorRule,
    rounding: RoundingMismatchRule,
)
    ensures
        truncation.kind_spec() is ReachableShiftTruncation,
        fake.kind_spec() is FakeCheckedShift,
        count.kind_spec() is InvalidShiftCount,
        cast.kind_spec() is ReachableNarrowCast,
        lossy.kind_spec() is ReachableLossyRightShift,
        bitwise.kind_spec() is SuspiciousBitwiseArithmetic,
        denominator.kind_spec() is ReachableWeakDenominator,
        rounding.kind_spec() is ReachableRoundingMismatch,
        truncation.description_spec()
            == "Left-shift discards high bits when the input exceeds the safe threshold"@,
        fake.description_spec()
            == "A custom overflow guard exists but is weaker than the true no-truncation bound"@,
        count.description_spec() == "Shift count is >= type width, which aborts at runtime"@,
        cast.description_spec()
            == "Cast to a narrower type can abort when the value exceeds the destination max"@,
        lossy.description_spec()
            == "Right-shift used as division silently discards non-zero low bits"@,
        bitwise.description_spec()
            == "Bitwise result whose exact range is unknown feeds downstream arithmetic"@,
        denominator.description_spec()
            == "Denominator may be zero or its individual factors are not proven strictly positive"@,
        rounding.description_spec()
            == "Semantically related quantity reaches a sink under inconsistent rounding modes"@,
{
}

/// The facts about a variable are those on the path that name it.
pub proof fn facts_are_about_their_variable(st: AbstractStateView, var: Var, fact: PathFactView)
    ensures
        facts_for_var(st, var).contains(fact) <==> st.path_facts.contains(fact) && fact.var
            == Some(var),
{
    let about = |f: PathFactView| f.var == Some(var);
    if facts_for_var(st, var).contains(fact) {
        st.path_facts.lemma_filter_contains_rev(about, fact);
    }
    if st.path_facts.contains(fact) && fact.var == Some(var) {
        let i = choose|i: int| 0 <= i < st.path_facts.len() && st.path_facts[i] == fact;
        st.path_facts.lemma_filter_contains(about, i);
    }
}

/// Whether a comparison from above lets no number past a threshold, and some number through at all.
pub open spec fn keeps_below(fact: PathFactView, threshold: U256) -> bool {
    &&& fact.bound is Some
    &&& fact.op is Lt || fact.op is Le || fact.op is Eq
    &&& exists|n: nat| #[trigger] fact.op.holds(n, fact.bound->0@)
    &&& forall|n: nat| #[trigger] fact.op.holds(n, fact.bound->0@) ==> n <= threshold@
}

/// A path keeps a value at or below a threshold exactly where one of its facts does.
pub proof fn paths_keep_values_below(threshold: U256, facts: Seq<PathFactView>)
    ensures
        path_proves_safe_spec(threshold, facts) <==> exists|i: int|
            0 <= i < facts.len() && keeps_below(#[trigger] facts[i], threshold),
{
    assert forall|i: int| 0 <= i < facts.len() implies (fact_proves_safe(
        #[trigger] facts[i],
        threshold,
    ) <==> keeps_below(facts[i], threshold)) by {
        lemma_keeps_below(facts[i], threshold);
    }
    if path_proves_safe_spec(threshold, facts) {
        let i = choose|i: int|
            0 <= i < facts.len() && fact_proves_safe(
                #[trigger] facts[i],
                threshold,
            );
        assert(keeps_below(facts[i], threshold));
    }
}

proof fn lemma_keeps_below(fact: PathFactView, threshold: U256)
    ensures
        fact_proves_safe(fact, threshold) <==> keeps_below(fact, threshold),
{
    if fact.bound is Some {
        let bound = fact.bound->0;
        lemma_u256_view(bound);
        if bound@ > 0 {
            lemma_u256_of((bound@ - 1) as nat);
        }
        if fact.op is Lt {
            if bound@ > 0 {
                assert(fact.op.holds((bound@ - 1) as nat, bound@));
            }
        } else if fact.op is Le || fact.op is Eq {
            assert(fact.op.holds(bound@, bound@));
        }
    }
}

/// What is claimed of a single value, from its range and its factors.
pub proof fn claims_follow_from_range_and_factors(value: ValueStateView, lo: U256, hi: U256)
    ensures
        proven_in_range_spec(value, lo, hi) <==> value.interval.lower is Some
            && value.interval.lower->0@ >= lo@ && value.interval.upper is Some
            && value.interval.upper->0@ <= hi@,
        proven_non_zero_spec(value) <==> (value.interval.lower is Some
            && value.interval.lower->0@ > 0) || has_positive_factors(value),
{
    if has_positive_factors(value) {
        assert(value.formula_facts->0.all_factors_positive());
    }
}

/// What is claimed of a product: the product of the two lower ends, where both are above zero and it
/// is a number of 256 bits, bounds it; and it is zero where one of the two is known to be.
pub proof fn products_are_bounded_by_their_factors(lhs: ValueStateView, rhs: ValueStateView)
    ensures
        ({
            let bound = proven_lower_bound_spec(lhs, rhs);
            let l = lhs.interval.lower;
            let r = rhs.interval.lower;
            let both = l is Some && r is Some && l->0@ > 0 && r->0@ > 0;
            &&& bound is Some <==> both && l->0@ * r->0@ < pow2(256)
            &&& bound is Some ==> bound->0@ == l->0@ * r->0@
            &&& definitely_zero_spec(lhs, rhs) <==> (lhs.exact_value_spec() is Some
                && lhs.exact_value_spec()->0@ == 0) || (rhs.exact_value_spec() is Some
                && rhs.exact_value_spec()->0@ == 0)
        }),
{
    lemma_pow2_widths();
    if lhs.interval.lower is Some && rhs.interval.lower is Some {
        let n = lhs.interval.lower->0@ * rhs.interval.lower->0@;
        if n < full() {
            lemma_u256_of(n);
        }
    }
    if let Some(x) = lhs.exact_value_spec() {
        if x@ == 0 {
            lemma_u256_injective(x, U256::zero_spec());
        }
    }
    if let Some(y) = rhs.exact_value_spec() {
        if y@ == 0 {
            lemma_u256_injective(y, U256::zero_spec());
        }
    }
}

} // verus!
