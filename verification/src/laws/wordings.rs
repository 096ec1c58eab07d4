//! Wordings: what the risks of operations, denominators and roundings say, and of what.

use crate::ast::{BinOp, Exp, Loc, ModuleCall};
use crate::domain::bit_facts::lemma_bit_mask;
use crate::domain::bits::{bit, lemma_bit_ones, lemma_bit_ops, lemma_bits_determine};
use crate::domain::denominator::denominator_factors_spec;
use crate::domain::formula::{FormulaFactorView, FormulaFactsView, RoundingMode};
use crate::domain::index_set::{lemma_not_single, lemma_single, single_spec};
use crate::domain::risk::{origin_key_spec, RiskKind, RiskOriginView};
use crate::domain::state::AbstractStateView;
use crate::domain::tags::FormulaTag;
use crate::domain::value::ValueStateView;
use crate::domain::widths::{
    is_width, lemma_pow2_fits, low_mask_spec, type_width_spec, uint_max_is_all_ones, uint_max_spec,
};
use crate::laws::roundings::was_rounded_both_ways;
use crate::laws::texts::{
    holds_word, mentions, words_are_found_as_they_are, words_are_found_in_any_case,
};
use crate::options::SecurityMathMode;
use crate::report::SinkKind;
use crate::rules::{
    invalid_shift_count, narrow_cast, rounding_mismatch, suspicious_bitwise, weak_denominator,
    RuleCtxView,
};
use crate::rules::lossy_right_shift::{check_spec, discarded_mask_spec};
use crate::rules::shift_truncation::check_shl_spec;
use crate::sinks::sink_priority_spec;
use crate::text::{decimal, joined};
use crate::transfer::binop::{
    binop_value_spec, dynamic_origin_spec, invalid_count_origin_spec, lossy_origin_spec,
    merged_spec, raw_result_spec, suspicious_origin_spec, truncation_origin_spec,
};
use crate::transfer::call::{call_values_spec, return_value_spec};
use crate::transfer::context::Ctx;
use crate::transfer::describe::describe_spec;
use crate::transfer::emit::{
    emit_rounding_spec, factor_labels_spec, finding_spec, make_origin_spec, rounding_detail_spec,
    rounding_origin_spec, weak_denominator_spec,
};
use crate::transfer::risks::lemma_return_values;
use crate::u256::{lemma_u256_of, U256};
use vstd::arithmetic::power2::pow2;
use vstd::prelude::*;

verus! {

/// Whether a risk stands at an expression and was found there, in the function that is analyzed and
/// on the path that is followed; and whether it comes from the value of another expression, and
/// from a parameter where this value depends on one alone.
pub open spec fn is_risk_at(
    risk: RiskOriginView,
    c: Ctx,
    exp: Exp,
    source: ValueStateView,
    source_text: Seq<char>,
    st: AbstractStateView,
    i: usize,
) -> bool {
    &&& risk.loc == exp.loc
    &&& risk.expr_text == describe_spec(c.function, exp)
    &&& risk.source_name == source_text
    &&& risk.source_interval == source.interval.describe_spec()
    &&& risk.helper_name == Some(c.function.key.name@)
    &&& risk.path_facts.len() == st.path_facts.len()
    &&& forall|k: int|
        0 <= k < st.path_facts.len() ==> #[trigger] risk.path_facts[k] == st.path_facts[k].text
    &&& source.parameter_dependencies == set![i] ==> risk.source_param_index == Some(i)
    &&& source.parameter_dependencies == Set::<usize>::empty() ==> risk.source_param_index is None
}

proof fn lemma_source(source: ValueStateView, i: usize)
    ensures
        source.parameter_dependencies == set![i] ==> single_spec(
            source.parameter_dependencies,
        ) == Some(i),
        source.parameter_dependencies == Set::<usize>::empty()
            ==> single_spec(source.parameter_dependencies) is None,
{
    if source.parameter_dependencies == set![i] {
        lemma_single(source.parameter_dependencies, i);
        assert(source.parameter_dependencies.contains(i));
    } else if source.parameter_dependencies == Set::<usize>::empty() {
        lemma_not_single(source.parameter_dependencies);
    }
}

/// The risk of a left shift says up to which number its operand keeps all bits.
pub proof fn risks_of_left_shifts_are_worded(
    c: Ctx,
    exp: Exp,
    lhs_exp: Exp,
    lhs: ValueStateView,
    st: AbstractStateView,
    width: u16,
    amount: u8,
    i: usize,
)
    ensures
        ({
            let risk = truncation_origin_spec(c, exp, lhs_exp, lhs, st, width, amount);
            let operand = describe_spec(c.function, lhs_exp);
            &&& is_risk_at(risk, c, exp, lhs, operand, st, i)
            &&& risk.kind is FakeCheckedShift || risk.kind is ReachableShiftTruncation
            &&& risk.kind is FakeCheckedShift ==> risk.title
                == "Unsound checked-shift helper is reachable"@
            &&& risk.kind is ReachableShiftTruncation ==> risk.title
                == "Reachable truncating left shift"@
            &&& risk.failed_condition == operand + " <= "@ + decimal(risk.threshold->0@)
                + " (MAX_U"@ + decimal(width as nat) + " >> "@ + decimal(amount as nat) + ")"@
        }),
{
    reveal(make_origin_spec);
    lemma_source(lhs, i);
}

proof fn lemma_discarded(width: u16, amount: u8)
    requires
        is_width(width),
        amount < width,
    ensures
        discarded_mask_spec(width, amount)@ == pow2(amount as nat) - 1,
{
    let s = amount as nat;
    let low = low_mask_spec(amount);
    let mask = discarded_mask_spec(width, amount);
    lemma_pow2_fits(s);
    lemma_u256_of((pow2(s) - 1) as nat);
    assert forall|i: nat| i < 256 implies #[trigger] bit(mask@, i) == bit(low@, i) by {
        lemma_bit_ops(low, uint_max_spec(width), i);
        lemma_bit_ones(s, i);
        lemma_bit_mask(width, i);
    }
    lemma_bits_determine(mask, low);
}

/// The risk of a right shift says which bits have to be zero: those below the amount. So does the
/// rule.
pub proof fn risks_of_right_shifts_are_worded(
    c: Ctx,
    ctx: RuleCtxView,
    exp: Exp,
    lhs_exp: Exp,
    lhs: ValueStateView,
    text: Seq<char>,
    st: AbstractStateView,
    width: u16,
    amount: u8,
    i: usize,
)
    requires
        is_width(width),
        amount < width,
    ensures
        ({
            let risk = lossy_origin_spec(c, exp, lhs_exp, lhs, st, width, amount);
            let rule = check_spec(ctx, lhs, text, width, amount);
            let operand = describe_spec(c.function, lhs_exp);
            let low = decimal((pow2(amount as nat) - 1) as nat);
            &&& is_risk_at(risk, c, exp, lhs, operand, st, i)
            &&& risk.kind is ReachableLossyRightShift
            &&& risk.title == "Right shift may discard non-zero low bits"@
            &&& risk.failed_condition == "("@ + operand + " & "@ + low + ") == 0"@
            &&& risk.width == Some(width)
            &&& risk.shift_amount == Some(amount)
            &&& risk.rounding_mode == Some(RoundingMode::RoundDown)
            &&& rule is Some ==> {
                &&& rule->0.title == "Reachable lossy right shift on a value-bearing path"@
                &&& rule->0.failed_condition == "("@ + text + " & "@ + low + ") == 0"@
                &&& rule->0.source_name == text
            }
        }),
{
    reveal(make_origin_spec);
    lemma_source(lhs, i);
    lemma_discarded(width, amount);
}

/// What the risks of shift counts and of bitwise arithmetic say.
pub proof fn risks_of_counts_and_bits_are_worded(
    c: Ctx,
    exp: Exp,
    part_exp: Exp,
    part: ValueStateView,
    st: AbstractStateView,
    width: u16,
    amount: u8,
    i: usize,
)
    ensures
        ({
            let text = describe_spec(c.function, part_exp);
            let invalid = invalid_count_origin_spec(c, exp, part_exp, part, st, width, amount);
            let dynamic = dynamic_origin_spec(c, exp, part_exp, part, st);
            let suspicious = suspicious_origin_spec(c, exp, part_exp, part, st, width);
            &&& is_risk_at(invalid, c, exp, part, text, st, i)
            &&& invalid.kind is InvalidShiftCount
            &&& invalid.title == "Invalid shift count is reachable"@
            &&& invalid.failed_condition == decimal(amount as nat) + " < "@ + decimal(width as nat)
            &&& invalid.width == Some(width)
            &&& invalid.shift_amount == Some(amount)
            &&& is_risk_at(dynamic, c, exp, part, text, st, i)
            &&& dynamic.kind is DynamicU256Shift
            &&& dynamic.title == "Dynamic shift count of a u256 value"@
            &&& dynamic.failed_condition == text + " is a known shift count"@
            &&& dynamic.width == Some(256u16)
            &&& dynamic.shift_amount is None
            &&& is_risk_at(suspicious, c, exp, part, text, st, i)
            &&& suspicious.kind is SuspiciousBitwiseArithmetic
            &&& suspicious.title
                == "Suspicious bitwise result may influence downstream arithmetic"@
            &&& suspicious.failed_condition
                == "Bitwise arithmetic result remains non-exact before downstream use"@
            &&& suspicious.width == Some(width)
            &&& suspicious.shift_amount is None
        }),
{
    reveal(make_origin_spec);
    lemma_source(part, i);
}

/// Whether the formula of a value tells of a price: it is a product of prices, or is called a
/// denominator.
pub open spec fn tells_of_a_price(value: ValueStateView) -> bool {
    &&& value.formula_facts is Some
    &&& value.formula_facts->0.tags.has_spec(FormulaTag::PriceProduct)
        || value.formula_facts->0.tags.has_spec(FormulaTag::ClmmDenominator)
}

/// Whether a function is named like one that divides or checks, and is not called from outside.
pub open spec fn is_named_like_a_helper(c: Ctx) -> bool {
    let name = c.function.key.name@;
    !c.function.is_entry && (mentions(name, "div"@) || mentions(name, "quotient"@) || mentions(
        name,
        "checked"@,
    ) || mentions(name, "mul_shr"@))
}

/// The risk of a denominator says what has to hold: that it is not zero; or, where a price is in it,
/// and where it is its factors that are open, that each factor is above zero. A factor goes by its
/// name, or by its number where it has none.
pub proof fn risks_of_denominators_are_worded(
    c: Ctx,
    exp: Exp,
    numerator: ValueStateView,
    denominator: ValueStateView,
    denominator_exp: Exp,
    st: AbstractStateView,
    i: usize,
    claims: Seq<Seq<char>>,
)
    ensures
        ({
            let risk = weak_denominator_spec(c, exp, numerator, denominator, denominator_exp, st);
            let text = describe_spec(c.function, denominator_exp);
            let factors = denominator_factors_spec(
                denominator,
                text,
                c.function.key.name@,
                denominator_exp.loc,
            );
            let are_claims = claims.len() == factors.len() && forall|k: int|
                0 <= k < factors.len() ==> #[trigger] claims[k] == (if factors[k].name.len() > 0 {
                    factors[k].name
                } else {
                    "factor#"@ + decimal(factors[k].id as nat)
                }) + " > 0"@;
            let facts = denominator.formula_facts;
            risk is Some ==> {
                let zero = risk->0.obligation_kind is NonZeroDivisor;
                &&& is_risk_at(risk->0, c, exp, denominator, text, st, i)
                &&& zero || risk->0.obligation_kind is IndependentFactorPositivity
                &&& zero && tells_of_a_price(denominator) ==> risk->0.title
                    == "CLMM denominator may be zero on a reachable value-bearing path"@
                &&& zero && !tells_of_a_price(denominator) ==> risk->0.title
                    == "Denominator may be zero on a reachable value-bearing path"@
                &&& !zero ==> risk->0.title
                    == "Denominator factors are not all independently proven positive"@
                &&& zero && !tells_of_a_price(denominator) ==> risk->0.failed_condition == text
                    + " != 0"@
                &&& !(zero && !tells_of_a_price(denominator)) && are_claims
                    ==> risk->0.failed_condition == joined(claims, " && "@)
                &&& risk->0.helper_like <==> is_named_like_a_helper(c)
                &&& facts is Some ==> risk->0.rounding_mode == Some(facts->0.rounding_mode)
                &&& facts is None ==> risk->0.rounding_mode is None
                &&& risk->0.shift_amount is None
            }
        }),
{
    reveal(weak_denominator_spec);
    lemma_source(denominator, i);
    let name = c.function.key.name@;
    words_are_found_in_any_case(name, "div"@);
    words_are_found_in_any_case(name, "quotient"@);
    words_are_found_in_any_case(name, "checked"@);
    words_are_found_in_any_case(name, "mul_shr"@);
    let text = describe_spec(c.function, denominator_exp);
    let factors = denominator_factors_spec(denominator, text, name, denominator_exp.loc);
    let labels = factor_labels_spec(factors);
    let all = Seq::new(labels.len(), |k: int| labels[k] + " > 0"@);
    if claims.len() == factors.len() && forall|k: int|
        0 <= k < factors.len() ==> #[trigger] claims[k] == (if factors[k].name.len() > 0 {
            factors[k].name
        } else {
            "factor#"@ + decimal(factors[k].id as nat)
        }) + " > 0"@ {
        assert forall|k: int| 0 <= k < all.len() implies all[k] == claims[k] by {}
        assert(all =~= claims);
    }
}

/// The rule says the same of a denominator, but calls a factor without a name just that.
pub proof fn denominator_rule_is_worded(
    ctx: RuleCtxView,
    numerator: ValueStateView,
    denominator: ValueStateView,
    loc: Loc,
    text: Seq<char>,
    helper: bool,
    mode: SecurityMathMode,
    discharged: bool,
    claims: Seq<Seq<char>>,
)
    ensures
        ({
            let risk = weak_denominator::check_spec(
                ctx,
                numerator,
                denominator,
                loc,
                text,
                helper,
                mode,
                discharged,
            );
            let factors = denominator_factors_spec(denominator, text, ctx.fn_name, loc);
            let are_claims = claims.len() == factors.len() && forall|k: int|
                0 <= k < factors.len() ==> #[trigger] claims[k] == (if factors[k].name.len() > 0 {
                    factors[k].name
                } else {
                    "factor"@
                }) + " > 0"@;
            risk is Some ==> {
                let zero = risk->0.obligation_kind is NonZeroDivisor;
                &&& zero || risk->0.obligation_kind is IndependentFactorPositivity
                &&& risk->0.key == origin_key_spec(
                    RiskKind::ReachableWeakDenominator,
                    ctx.exp_loc,
                )
                &&& risk->0.source_name == text
                &&& risk->0.expr_text == text
                &&& risk->0.helper_name == Some(ctx.fn_name)
                &&& risk->0.path_facts == ctx.path_facts
                &&& risk->0.source_interval == denominator.interval.describe_spec()
                &&& zero ==> risk->0.threshold is Some && risk->0.threshold->0@ == 0
                &&& zero && tells_of_a_price(denominator) ==> risk->0.title
                    == "CLMM denominator may be zero on a reachable value-bearing path"@
                &&& zero && !tells_of_a_price(denominator) ==> risk->0.title
                    == "Denominator may be zero on a reachable value-bearing path"@
                &&& !zero ==> risk->0.title
                    == "Denominator factors are not all independently proven positive"@
                &&& zero && !tells_of_a_price(denominator) ==> risk->0.failed_condition == text
                    + " != 0"@
                &&& !(zero && !tells_of_a_price(denominator)) && are_claims
                    ==> risk->0.failed_condition == joined(claims, " && "@)
            }
        }),
{
    let factors = denominator_factors_spec(denominator, text, ctx.fn_name, loc);
    let labels = weak_denominator::factor_labels_spec(factors);
    let all = Seq::new(labels.len(), |k: int| labels[k] + " > 0"@);
    if claims.len() == factors.len() && forall|k: int|
        0 <= k < factors.len() ==> #[trigger] claims[k] == (if factors[k].name.len() > 0 {
            factors[k].name
        } else {
            "factor"@
        }) + " > 0"@ {
        assert forall|k: int| 0 <= k < all.len() implies all[k] == claims[k] by {}
        assert(all =~= claims);
    }
}

/// Whether a risk has a title and says what should hold, of a text that stands for a value, and from
/// which parameter it comes where the value depends on one alone.
pub open spec fn says(
    risk: RiskOriginView,
    title: Seq<char>,
    condition: Seq<char>,
    text: Seq<char>,
    value: ValueStateView,
    i: usize,
) -> bool {
    &&& risk.title == title
    &&& risk.failed_condition == condition
    &&& risk.source_name == text
    &&& risk.source_interval == value.interval.describe_spec()
    &&& value.parameter_dependencies == set![i] ==> risk.source_param_index == Some(i)
    &&& value.parameter_dependencies == Set::<usize>::empty() ==> risk.source_param_index is None
}

/// What the rules say of shifts, casts, bitwise results and roundings.
pub proof fn rules_are_worded(
    ctx: RuleCtxView,
    value: ValueStateView,
    text: Seq<char>,
    width: u16,
    amount: u8,
    guard: Option<U256>,
    loc: Loc,
    detail: Option<Seq<char>>,
    i: usize,
)
    requires
        is_width(width),
    ensures
        ({
            let shl = check_shl_spec(ctx, value, text, width, amount, guard);
            let count = invalid_shift_count::check_spec(ctx, value, width, amount);
            let cast = narrow_cast::check_spec(ctx, value, text, width);
            let bits = suspicious_bitwise::check_spec(ctx, value, text);
            let rounding = rounding_mismatch::check_spec(ctx, value, loc, detail);
            let bound = text + " <= "@ + decimal(shl->0.threshold->0@) + " (MAX_U"@ + decimal(
                width as nat,
            ) + " >> "@ + decimal(amount as nat) + ")"@;
            &&& shl is Some && shl->0.kind is FakeCheckedShift ==> says(
                shl->0,
                "Custom checked-shift helper may be unsound on a reachable path"@,
                bound,
                text,
                value,
                i,
            )
            &&& shl is Some && shl->0.kind is ReachableShiftTruncation ==> says(
                shl->0,
                "Reachable truncating left shift on a value-bearing path"@,
                bound,
                text,
                value,
                i,
            )
            &&& count is Some ==> says(
                count->0,
                "Reachable invalid shift count"@,
                decimal(amount as nat) + " < "@ + decimal(width as nat),
                decimal(amount as nat),
                value,
                i,
            ) && count->0.expr_text == "shift by "@ + decimal(amount as nat)
            &&& cast is Some ==> says(
                cast->0,
                "Reachable narrowing cast on value-bearing path"@,
                text + " <= "@ + decimal((pow2(width as nat) - 1) as nat),
                text,
                value,
                i,
            )
            &&& bits is Some ==> says(
                bits->0,
                "Suspicious bitwise result reaches downstream arithmetic"@,
                "exact range of "@ + text + " is known"@,
                text,
                value,
                i,
            )
            &&& rounding is Some ==> says(
                rounding->0,
                "Semantically related value reaches sink with incompatible rounding modes"@,
                "consistent rounding mode across all reachable paths for this quantity"@,
                if value.formula_facts->0.root_expr is Some {
                    value.formula_facts->0.root_expr->0.debug
                } else {
                    "value"@
                },
                value,
                i,
            )
        }),
{
    lemma_source(value, i);
    uint_max_is_all_ones(width);
}

/// The factors that a denominator is asked for where none is known: the denominator itself, under
/// the name of its expression or, without one, its text.
pub proof fn denominators_stand_for_themselves(
    denominator: ValueStateView,
    text: Seq<char>,
    function: Seq<char>,
    loc: Loc,
)
    requires
        denominator.formula_facts is Some ==> denominator.formula_facts->0.factors.len() == 0,
    ensures
        ({
            let factors = denominator_factors_spec(denominator, text, function, loc);
            let named = denominator.formula_facts is Some
                && denominator.formula_facts->0.root_expr is Some;
            &&& factors.len() == 1
            &&& named ==> factors[0].name == denominator.formula_facts->0.root_expr->0.debug
                && factors[0].id == denominator.formula_facts->0.root_expr->0.id
                && factors[0].proof_mode is Abstract
            &&& !named ==> factors[0].name == text && factors[0].proof_mode is Heuristic
            &&& factors[0].strict_positive <==> denominator.interval.lower is Some
                && denominator.interval.lower->0@ > 0
            &&& factors[0].source_locs == seq![loc]
        }),
{
    reveal(denominator_factors_spec);
}

/// How the detail of a sink and the steps of a rounding are told together.
pub open spec fn is_told_with_steps(
    told: Option<Seq<char>>,
    steps: Seq<Seq<char>>,
    detail: Option<Seq<char>>,
) -> bool {
    let given = detail is Some && detail->0.len() > 0;
    let trace = "rounding trace: "@ + joined(steps, " -> "@);
    &&& steps.len() == 0 && !given ==> told is None
    &&& steps.len() == 0 && given ==> told == detail
    &&& steps.len() > 0 && !given ==> told == Some(trace)
    &&& steps.len() > 0 && given ==> told == Some(detail->0 + "; "@ + trace)
}

/// The risk of a rounding mismatch is told under a key of its own, for the place of the sink and the
/// quantity, and names the quantity.
pub proof fn risks_of_roundings_are_worded(
    c: Ctx,
    value: ValueStateView,
    sink_loc: Loc,
    st: AbstractStateView,
    text: Seq<char>,
    i: usize,
)
    requires
        value.formula_facts is Some,
    ensures
        ({
            let risk = rounding_origin_spec(c, value, sink_loc, st, text);
            let facts = value.formula_facts->0;
            let key = origin_key_spec(RiskKind::ReachableRoundingMismatch, sink_loc);
            &&& risk.kind is ReachableRoundingMismatch
            &&& risk.loc == sink_loc
            &&& facts.root_expr is Some ==> risk.key == key + ":"@ + decimal(
                facts.root_expr->0.id as nat,
            ) && risk.source_name == facts.root_expr->0.debug
            &&& facts.root_expr is None ==> risk.key == key + ":"@ + decimal(0) && risk.source_name
                == "value"@
            &&& risk.title
                == "Semantically related value reaches sink with incompatible rounding modes"@
            &&& risk.failed_condition
                == "consistent rounding mode across all reachable paths for this quantity"@
            &&& risk.expr_text == text
            &&& risk.source_interval == value.interval.describe_spec()
            &&& risk.helper_name == Some(c.function.key.name@)
            &&& !risk.helper_like
            &&& !risk.guard_mismatch
            &&& risk.obligation_kind is RoundingConsistency
            &&& risk.proof_mode is Abstract
            &&& risk.rounding_mode == Some(facts.rounding_mode)
            &&& risk.threshold is None
            &&& value.parameter_dependencies == set![i] ==> risk.source_param_index == Some(i)
            &&& value.parameter_dependencies == Set::<usize>::empty()
                ==> risk.source_param_index is None
        }),
{
    reveal(rounding_origin_spec);
    lemma_source(value, i);
}

/// The finding of a rounding mismatch tells the detail of the sink and the steps of the rounding.
pub proof fn mismatches_tell_the_steps(
    c: Ctx,
    value: ValueStateView,
    sink_loc: Loc,
    sink_kind: SinkKind,
    financial: bool,
    st: AbstractStateView,
    detail: Option<Seq<char>>,
)
    requires
        c.mode is Findings,
        was_rounded_both_ways(value),
    ensures
        exists|told: Option<Seq<char>>|
            #![trigger is_told_with_steps(told, value.formula_facts->0.rounding_trace, detail)]
            is_told_with_steps(told, value.formula_facts->0.rounding_trace, detail)
                && emit_rounding_spec(c, value, sink_loc, sink_kind, financial, st, detail) == seq![
                finding_spec(
                    rounding_origin_spec(
                        c,
                        value,
                        sink_loc,
                        st,
                        if told is Some {
                            told->0
                        } else {
                            "value"@
                        },
                    ),
                    sink_loc,
                    sink_kind,
                    financial,
                    st,
                    told,
                ),
            ],
{
    reveal(rounding_origin_spec);
    let steps = value.formula_facts->0.rounding_trace;
    let text = rounding_detail_spec(value.formula_facts->0, detail);
    let told = if text.len() == 0 {
        None
    } else {
        Some(text)
    };
    reveal_strlit("rounding trace: ");
    reveal_strlit("; ");
    assert(is_told_with_steps(told, steps, detail));
}

/// Each operation has a formula of its kind, and leaves its mark on the trace of rounding steps; the
/// masks of bits count as scales.
pub proof fn operations_have_a_formula_of_their_kind(
    c: Ctx,
    exp: Exp,
    lhs_exp: Exp,
    lhs: ValueStateView,
    op: BinOp,
    rhs_exp: Exp,
    rhs: ValueStateView,
    st: AbstractStateView,
)
    ensures
        ({
            let formula = binop_value_spec(
                c,
                exp,
                lhs_exp,
                lhs,
                op,
                rhs_exp,
                rhs,
                st,
            ).formula_facts;
            formula is Some ==> {
                let last = formula->0.rounding_trace.last();
                let root = formula->0.root_expr;
                &&& op is Add ==> last == "add"@
                &&& op is Sub ==> last == "sub"@
                &&& op is Mul ==> last == "mul"@
                &&& op is Div ==> last == "div/floor"@
                &&& op is Mod ==> last == "mod/floor"@
                &&& op is BitAnd ==> last == "shl/scale"@
                &&& op is BitOr ==> last == "shr/floor"@
                &&& op is Sub ==> formula->0.roles.difference
                &&& op is Mul ==> formula->0.roles.mul_factor
                &&& op is Div ==> formula->0.roles.div_lhs && formula->0.roles.div_rhs
                &&& op is Mod ==> !formula->0.roles.div_lhs && formula->0.roles.div_rhs
                &&& root is Some ==> {
                    &&& root->0.debug == describe_spec(c.function, exp)
                    &&& op is Add ==> root->0.op is Add
                    &&& op is Sub ==> root->0.op is Sub
                    &&& op is Mul ==> root->0.op is Mul
                    &&& op is Div ==> root->0.op is Div
                    &&& op is Mod ==> root->0.op is Mod
                }
            }
        }),
{
    reveal(binop_value_spec);
    reveal(raw_result_spec);
    reveal(merged_spec);
}

/// A call that divides or multiplies has a formula of this kind, on its first two arguments: a name
/// that says both divides.
pub proof fn calls_have_a_formula_of_their_kind(
    c: Ctx,
    call: ModuleCall,
    exp: Exp,
    arguments: Seq<ValueStateView>,
    st: AbstractStateView,
    i: int,
)
    requires
        c.summary_of(call.callee) is Some,
        0 <= i < c.summary_of(call.callee)->0.len(),
    ensures
        ({
            let formula = call_values_spec(c, call, exp, arguments, st)[i].formula_facts;
            let divides = holds_word(call.callee.name@, "div"@);
            formula is Some ==> {
                let root = formula->0.root_expr;
                &&& divides ==> formula->0.roles.div_lhs && formula->0.roles.div_rhs
                    && formula->0.rounding_trace.contains("div/floor"@)
                &&& !divides ==> formula->0.roles.mul_factor && formula->0.rounding_trace.contains(
                    "mul"@,
                )
                &&& root is Some && divides ==> root->0.op is Div
                &&& root is Some && !divides ==> root->0.op is Mul
                &&& root is Some ==> root->0.debug == call.callee.module.text@ + "::"@
                    + call.callee.name@
            }
        }),
{
    let summary = c.summary_of(call.callee)->0;
    lemma_return_values(c, call, exp, arguments, summary, summary.len(), st);
    words_are_found_as_they_are(call.callee.name@, "div"@);
    words_are_found_as_they_are(call.callee.name@, "mul"@);
    reveal(return_value_spec);
    let value = call_values_spec(c, call, exp, arguments, st)[i];
    if let Some(facts) = value.formula_facts {
        let word = if holds_word(call.callee.name@, "div"@) {
            "div/floor"@
        } else {
            "mul"@
        };
        let n = facts.rounding_trace.len();
        assert(facts.rounding_trace[n - 1] == word || n > 1 && facts.rounding_trace[n - 2] == word);
    }
}

/// Two factors of one name are put together: in an operation their tags add up, where paths meet
/// only those stay that both have. Either way the factor is above zero where both are, and is
/// evident where both are so in the same way.
pub proof fn factors_of_one_name_are_put_together(
    a: FormulaFactorView,
    b: FormulaFactorView,
    tag: FormulaTag,
)
    ensures
        ({
            let both = a.merge_spec(b);
            let either = a.join_spec(b);
            &&& both.id == a.id
            &&& both.name == a.name
            &&& both.tags.has_spec(tag) <==> a.tags.has_spec(tag) || b.tags.has_spec(tag)
            &&& both.strict_positive <==> a.strict_positive && b.strict_positive
            &&& a.proof_mode == b.proof_mode ==> both.proof_mode == a.proof_mode
            &&& a.proof_mode != b.proof_mode ==> both.proof_mode is Heuristic
            &&& either is Some <==> a.name == b.name
            &&& either is Some ==> {
                &&& either->0.id == a.id
                &&& either->0.name == a.name
                &&& either->0.tags.has_spec(tag) <==> a.tags.has_spec(tag) && b.tags.has_spec(tag)
                &&& either->0.strict_positive <==> a.strict_positive && b.strict_positive
                &&& a.proof_mode == b.proof_mode ==> either->0.proof_mode == a.proof_mode
                &&& a.proof_mode != b.proof_mode ==> either->0.proof_mode is Heuristic
            }
        }),
{
}

/// Where paths meet, a formula keeps the tags that both paths give it.
pub proof fn meeting_paths_keep_common_tags(
    a: FormulaFactsView,
    b: FormulaFactsView,
    tag: FormulaTag,
)
    requires
        a.join_spec(b) is Some,
    ensures
        a.join_spec(b)->0.tags.has_spec(tag) <==> a.tags.has_spec(tag) && b.tags.has_spec(tag),
{
}

/// A shift by too much, as far as known, gives no idea of the result; and neither does one whose
/// amount is not known, but for the width.
pub proof fn shifts_gone_wrong_say_little(
    c: Ctx,
    exp: Exp,
    lhs_exp: Exp,
    lhs: ValueStateView,
    op: BinOp,
    rhs_exp: Exp,
    rhs: ValueStateView,
    st: AbstractStateView,
    width: u16,
)
    requires
        op is Shl || op is Shr,
        is_width(width),
        type_width_spec(exp.ty) == Some(width),
    ensures
        ({
            let value = binop_value_spec(c, exp, lhs_exp, lhs, op, rhs_exp, rhs, st);
            let amount = rhs.exact_value_spec();
            &&& amount is Some && width <= amount->0@ <= 255 ==> value.interval.lower is None
                && value.interval.upper is None && !value.interval.bottom
            &&& amount is None ==> value.interval.lower is Some && value.interval.lower->0@ == 0
                && value.interval.upper is Some && value.interval.upper->0@ == pow2(width as nat)
                - 1
        }),
{
    reveal(binop_value_spec);
    reveal(raw_result_spec);
    reveal(merged_spec);
    uint_max_is_all_ones(width);
}

/// The sinks by priority: fields that are written, and whatever is critical but not a mere operand;
/// then arguments of calls; then the rest.
pub proof fn sinks_have_a_priority(critical: bool, other: bool)
    ensures
        sink_priority_spec(SinkKind::FieldWrite, critical)
            == sink_priority_spec(SinkKind::CallArgument, true),
        sink_priority_spec(SinkKind::PublicReturn, true)
            == sink_priority_spec(SinkKind::CallArgument, true),
        sink_priority_spec(SinkKind::CallArgument, true)
            > sink_priority_spec(SinkKind::CallArgument, false),
        sink_priority_spec(SinkKind::CallArgument, false)
            > sink_priority_spec(SinkKind::PublicReturn, false),
        sink_priority_spec(SinkKind::PublicReturn, false)
            == sink_priority_spec(SinkKind::ArithmeticUse, other),
{
}

} // verus!
