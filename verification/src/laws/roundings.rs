//! Rounding: which way operations and calls round, and when two ways clash.

use crate::ast::{BinOp, Exp, Loc, ModuleCall};
use crate::domain::formula::{
    find_name, join_factors, FormulaFactorView, FormulaFactsView, RoundingMode,
};
use crate::domain::state::AbstractStateView;
use crate::domain::tags::TagSet;
use crate::domain::value::ValueStateView;
use crate::laws::texts::{
    holds_word, mentions, words_are_found_as_they_are, words_are_found_in_any_case,
};
use crate::report::SinkKind;
use crate::transfer::binop::{binop_value_spec, merged_spec, raw_result_spec};
use crate::transfer::call::{
    call_values_spec, default_returns_spec, named_direction_spec, return_value_spec,
};
use crate::transfer::context::Ctx;
use crate::transfer::emit::{
    emit_origins_spec, emit_rounding_spec, emit_value_spec, finding_spec, rounding_origin_spec,
};
use crate::transfer::risks::lemma_return_values;
use vstd::prelude::*;

verus! {

/// Whether a function rounds up, by its name.
pub open spec fn named_up(name: Seq<char>) -> bool {
    mentions(name, "ceil"@) || mentions(name, "round_up"@) || mentions(name, "div_up"@)
}

/// Whether a function rounds down, by its name.
pub open spec fn named_down(name: Seq<char>) -> bool {
    !named_up(name) && (mentions(name, "floor"@) || mentions(name, "round_down"@) || mentions(
        name,
        "div_down"@,
    ))
}

/// The rounding of a quantity made of two: that of the one that is rounded, that of both where they
/// agree, and unknown where they do not.
pub open spec fn is_rounding_of_both(
    made: RoundingMode,
    one: RoundingMode,
    other: RoundingMode,
) -> bool {
    &&& one is Exact ==> made == other
    &&& other is Exact ==> made == one
    &&& one == other ==> made == one
    &&& one !is Exact && other !is Exact && one != other ==> made is Unknown
}

/// The rounding of a result whose operation is exact.
pub open spec fn is_rounding_of_operands(
    made: RoundingMode,
    l: Option<FormulaFactsView>,
    r: Option<FormulaFactsView>,
) -> bool {
    &&& l is Some && r is Some ==> is_rounding_of_both(
        made,
        l->0.rounding_mode,
        r->0.rounding_mode,
    )
    &&& l is Some && r is None ==> made == l->0.rounding_mode
    &&& l is None && r is Some ==> made == r->0.rounding_mode
}

/// The direction that a name tells of.
pub proof fn names_tell_the_direction(name: Seq<char>)
    ensures
        named_up(name) ==> named_direction_spec(name) == Some(RoundingMode::RoundUp),
        named_down(name) ==> named_direction_spec(name) == Some(RoundingMode::RoundDown),
        !named_up(name) && !named_down(name) ==> named_direction_spec(name) is None,
{
    reveal(named_direction_spec);
    words_are_found_in_any_case(name, "ceil"@);
    words_are_found_in_any_case(name, "round_up"@);
    words_are_found_in_any_case(name, "div_up"@);
    words_are_found_in_any_case(name, "floor"@);
    words_are_found_in_any_case(name, "round_down"@);
    words_are_found_in_any_case(name, "div_down"@);
}

/// A call to an analyzed function whose name says that it divides or multiplies has a formula where
/// one of its first two arguments has, and rounds the way its name says: up or down, else down
/// where it divides, and like its arguments where it multiplies.
pub proof fn calls_round_as_they_are_named(
    c: Ctx,
    call: ModuleCall,
    exp: Exp,
    arguments: Seq<ValueStateView>,
    st: AbstractStateView,
    i: int,
)
    requires
        c.summary_of(call.callee) is Some,
        0 <= i < c.summary_of(call.callee)->0.len(),
    ensures
        ({
            let name = call.callee.name@;
            let divides = holds_word(name, "div"@);
            let multiplies = holds_word(name, "mul"@);
            let formula = call_values_spec(c, call, exp, arguments, st)[i].formula_facts;
            &&& formula is Some <==> (divides || multiplies) && arguments.len() >= 2 && (
            arguments[0].formula_facts is Some || arguments[1].formula_facts is Some)
            &&& formula is Some ==> {
                &&& named_up(name) ==> formula->0.rounding_mode is RoundUp
                &&& named_down(name) ==> formula->0.rounding_mode is RoundDown
                &&& !named_up(name) && !named_down(name) && divides
                    ==> formula->0.rounding_mode is RoundDown
                &&& !named_up(name) && !named_down(name) && !divides ==> is_rounding_of_operands(
                    formula->0.rounding_mode,
                    arguments[0].formula_facts,
                    arguments[1].formula_facts,
                )
                &&& !formula->0.rounding_conflict
                &&& named_up(name) ==> formula->0.rounding_trace.last()
                    == call.callee.module.text@ + "::"@ + name + " => round_up"@
                &&& named_down(name) ==> formula->0.rounding_trace.last()
                    == call.callee.module.text@ + "::"@ + name + " => round_down"@
            }
        }),
{
    let name = call.callee.name@;
    let summary = c.summary_of(call.callee)->0;
    lemma_return_values(c, call, exp, arguments, summary, summary.len(), st);
    names_tell_the_direction(name);
    words_are_found_as_they_are(name, "div"@);
    words_are_found_as_they_are(name, "mul"@);
    reveal(return_value_spec);
    let base = if i < default_returns_spec(exp.ty).len() {
        default_returns_spec(exp.ty)[i]
    } else {
        ValueStateView::top_spec()
    };
    assert(base.formula_facts is None);
}

/// A quotient and a remainder are rounded down; sums, differences and products are rounded the way
/// their operands are.
pub proof fn operations_round_down_where_they_divide(
    c: Ctx,
    exp: Exp,
    lhs_exp: Exp,
    lhs: ValueStateView,
    op: BinOp,
    rhs_exp: Exp,
    rhs: ValueStateView,
    st: AbstractStateView,
)
    ensures
        ({
            let formula = binop_value_spec(
                c,
                exp,
                lhs_exp,
                lhs,
                op,
                rhs_exp,
                rhs,
                st,
            ).formula_facts;
            let any = lhs.formula_facts is Some || rhs.formula_facts is Some;
            let exact = op is Add || op is Sub || op is Mul || op is BitAnd;
            let floors = op is Div || op is Mod || op is BitOr;
            &&& formula is Some <==> any && (exact || floors)
            &&& formula is Some ==> !formula->0.rounding_conflict
            &&& formula is Some && floors ==> formula->0.rounding_mode is RoundDown
            &&& formula is Some && exact ==> is_rounding_of_operands(
                formula->0.rounding_mode,
                lhs.formula_facts,
                rhs.formula_facts,
            )
        }),
{
    reveal(binop_value_spec);
    reveal(raw_result_spec);
    reveal(merged_spec);
}

/// Whether two formulas have a factor of the same name.
pub open spec fn share_a_factor(a: FormulaFactsView, b: FormulaFactsView) -> bool {
    exists|i: int, j: int|
        #![trigger a.factors[i], b.factors[j]]
        0 <= i < a.factors.len() && 0 <= j < b.factors.len() && a.factors[i].name
            == b.factors[j].name
}

/// Whether two formulas have a tag in common.
pub open spec fn share_a_tag(a: TagSet, b: TagSet) -> bool {
    a.price_like && b.price_like || a.price_diff && b.price_diff || a.liquidity_like
        && b.liquidity_like || a.price_product && b.price_product || a.liquidity_scaled
        && b.liquidity_scaled || a.clmm_numerator && b.clmm_numerator || a.clmm_denominator
        && b.clmm_denominator || a.denominator_like && b.denominator_like
}

/// A factor of a name is found exactly where there is one, and the first one is.
pub proof fn lemma_find_name(factors: Seq<FormulaFactorView>, name: Seq<char>, from: nat)
    requires
        from <= factors.len(),
    ensures
        find_name(factors, name, from) is Some <==> exists|j: int|
            from <= j < factors.len() && (#[trigger] factors[j]).name == name,
        find_name(factors, name, from) is Some ==> {
            let j = find_name(factors, name, from)->0;
            &&& from <= j < factors.len()
            &&& factors[j].name == name
            &&& forall|k: int| from <= k < j ==> (#[trigger] factors[k]).name != name
        },
    decreases factors.len() - from,
{
    if from < factors.len() && factors[from as int].name != name {
        lemma_find_name(factors, name, from + 1);
    }
}

proof fn lemma_joined_factors(a: FormulaFactsView, b: FormulaFactsView, n: nat)
    requires
        n <= a.factors.len(),
    ensures
        join_factors(a.factors, b.factors, n).len() > 0 <==> exists|i: int, j: int|
            #![trigger a.factors[i], b.factors[j]]
            0 <= i < n && 0 <= j < b.factors.len() && a.factors[i].name == b.factors[j].name,
    decreases n,
{
    if n > 0 {
        lemma_joined_factors(a, b, (n - 1) as nat);
        lemma_find_name(b.factors, a.factors[n - 1].name, 0);
        if let Some(j) = find_name(b.factors, a.factors[n - 1].name, 0) {
            assert(a.factors[n - 1].name == b.factors[j].name);
        }
    }
}

/// Where two paths meet, a formula is left where both paths have one, and these have a factor or a
/// tag in common. Two directions of rounding clash, and a clash stays.
pub proof fn meeting_paths_may_clash(a: ValueStateView, b: ValueStateView)
    ensures
        ({
            let joined = a.join_spec(b).formula_facts;
            &&& joined is Some <==> a.formula_facts is Some && b.formula_facts is Some && (
            share_a_factor(a.formula_facts->0, b.formula_facts->0) || share_a_tag(
                a.formula_facts->0.tags,
                b.formula_facts->0.tags,
            ))
            &&& joined is Some ==> {
                let l = a.formula_facts->0;
                let r = b.formula_facts->0;
                &&& joined->0.rounding_conflict <==> l.rounding_conflict || r.rounding_conflict || (
                l.rounding_mode !is Exact && r.rounding_mode !is Exact && l.rounding_mode
                    != r.rounding_mode)
                &&& is_rounding_of_both(joined->0.rounding_mode, l.rounding_mode, r.rounding_mode)
                &&& joined->0.factors.len() > 0 <==> share_a_factor(l, r)
                &&& l.root_expr == r.root_expr ==> joined->0.root_expr == l.root_expr
                &&& l.root_expr != r.root_expr ==> joined->0.root_expr is None
            }
        }),
{
    if a.formula_facts is Some && b.formula_facts is Some {
        let l = a.formula_facts->0;
        let r = b.formula_facts->0;
        lemma_joined_factors(l, r, l.factors.len());
    }
}

/// Whether a value reaches a sink after different paths rounded it in different directions, and is
/// more than a number.
pub open spec fn was_rounded_both_ways(value: ValueStateView) -> bool {
    &&& value.formula_facts is Some
    &&& value.formula_facts->0.rounding_conflict
    &&& value.formula_facts->0.factors.len() > 0 || value.formula_facts->0.root_expr is Some
}

/// A value that was rounded in different directions is reported where it reaches a sink, once, as a
/// rounding mismatch at that place; any other value is reported for the risks that it carries only.
pub proof fn clashes_are_reported(
    c: Ctx,
    value: ValueStateView,
    sink_loc: Loc,
    sink_kind: SinkKind,
    financial: bool,
    st: AbstractStateView,
    detail: Option<Seq<char>>,
)
    ensures
        ({
            let all = emit_value_spec(c, value, sink_loc, sink_kind, financial, st, detail);
            let carried = emit_origins_spec(
                c,
                value.risky_origins,
                value.risky_origins.len(),
                sink_loc,
                sink_kind,
                financial,
                st,
                detail,
            );
            &&& was_rounded_both_ways(value) && c.mode is Findings ==> {
                &&& all.len() == carried.len() + 1
                &&& all.last().kind is ReachableRoundingMismatch
                &&& all.last().loc == sink_loc
                &&& all.last().sink_loc == Some(sink_loc)
                &&& all.last().sink_kind == sink_kind
            }
            &&& !was_rounded_both_ways(value) || c.mode !is Findings ==> all == carried
        }),
{
    reveal(finding_spec);
    reveal(rounding_origin_spec);
    assert(emit_value_spec(c, value, sink_loc, sink_kind, financial, st, detail)
        =~= emit_origins_spec(
        c,
        value.risky_origins,
        value.risky_origins.len(),
        sink_loc,
        sink_kind,
        financial,
        st,
        detail,
    ) + emit_rounding_spec(c, value, sink_loc, sink_kind, financial, st, detail));
}

/// Where one path rounded a quantity up and another down, the value that both leave is reported as
/// soon as it reaches a sink.
pub proof fn opposite_roundings_are_reported(
    c: Ctx,
    up: ValueStateView,
    down: ValueStateView,
    sink_loc: Loc,
    sink_kind: SinkKind,
    financial: bool,
    st: AbstractStateView,
    detail: Option<Seq<char>>,
)
    requires
        c.mode is Findings,
        up.formula_facts is Some,
        down.formula_facts is Some,
        up.formula_facts->0.rounding_mode is RoundUp,
        down.formula_facts->0.rounding_mode is RoundDown,
        share_a_factor(up.formula_facts->0, down.formula_facts->0),
    ensures
        emit_value_spec(
            c,
            up.join_spec(down),
            sink_loc,
            sink_kind,
            financial,
            st,
            detail,
        ).last().kind is ReachableRoundingMismatch,
        emit_value_spec(
            c,
            down.join_spec(up),
            sink_loc,
            sink_kind,
            financial,
            st,
            detail,
        ).last().kind is ReachableRoundingMismatch,
{
    let l = up.formula_facts->0;
    let r = down.formula_facts->0;
    assert(share_a_factor(r, l)) by {
        let (i, j) = choose|i: int, j: int|
            #![trigger l.factors[i], r.factors[j]]
            0 <= i < l.factors.len() && 0 <= j < r.factors.len() && l.factors[i].name
                == r.factors[j].name;
        assert(r.factors[j].name == l.factors[i].name);
    }
    meeting_paths_may_clash(up, down);
    meeting_paths_may_clash(down, up);
    clashes_are_reported(
        c,
        up.join_spec(down),
        sink_loc,
        sink_kind,
        financial,
        st,
        detail,
    );
    clashes_are_reported(
        c,
        down.join_spec(up),
        sink_loc,
        sink_kind,
        financial,
        st,
        detail,
    );
}

} // verus!
