//! Calls: which risks of a function reach its callers, and what a call does with its arguments.

use crate::ast::{Exp, ModuleCall, Type};
use crate::domain::index_set::{lemma_single, single_spec};
use crate::domain::risk::{push_all_new, ObligationKind, RiskOriginView};
use crate::domain::state::AbstractStateView;
use crate::domain::value::ValueStateView;
use crate::domain::widths::{is_width, single_width_spec, type_width_spec};
use crate::laws::denominators::{denominators_owe_what_is_reported, owes};
use crate::laws::numbers::nothing_but_the_type_is_known;
use crate::summaries::ReturnSummaryView;
use crate::text::contains_text;
use crate::transfer::call::{
    call_denominator_spec, call_values_spec, default_returns_spec, discharged_spec,
    mapped_origin_spec, passed_on_spec, return_value_spec, with_callee_origins_spec,
};
use crate::transfer::context::Ctx;
use crate::transfer::risks::{
    callee_risks_reach_the_caller, carries, lemma_defaults_without_risks, lemma_return_values,
};
use crate::u256::U256;
use vstd::arithmetic::power2::pow2;
use vstd::prelude::*;

verus! {

/// Whether a value is known to be built of factors that are above zero.
pub open spec fn has_positive_factors(value: ValueStateView) -> bool {
    &&& value.formula_facts is Some
    &&& value.formula_facts->0.factors.len() > 0
    &&& forall|i: int|
        0 <= i < value.formula_facts->0.factors.len() ==> (
        #[trigger] value.formula_facts->0.factors[i]).strict_positive
}

/// Whether nothing that is known of an argument keeps a risk of the callee from arising: the
/// divisor may be zero, some factor of it may be, or the threshold may be passed.
pub open spec fn may_arise(origin: RiskOriginView, argument: ValueStateView) -> bool {
    match origin.obligation_kind {
        ObligationKind::NonZeroDivisor => !has_positive_factors(argument) && (
        argument.interval.lower is None || argument.interval.lower->0@ == 0),
        ObligationKind::IndependentFactorPositivity => !has_positive_factors(argument),
        _ => origin.threshold is None || argument.interval.upper is None
            || argument.interval.upper->0@ > origin.threshold->0@,
    }
}

/// The argument that the parameter behind a risk stands for, where there is one.
pub open spec fn comes_with(
    origin: RiskOriginView,
    arguments: Seq<ValueStateView>,
    p: int,
) -> bool {
    0 <= p < arguments.len() && origin.source_param_index is Some
        && origin.source_param_index->0 == p
}

/// An argument rules a risk of the callee out exactly where what is known of it keeps the risk from
/// arising.
pub proof fn arguments_rule_out_what_cannot_arise(origin: RiskOriginView, argument: ValueStateView)
    ensures
        discharged_spec(origin, argument) <==> !may_arise(origin, argument),
{
    if has_positive_factors(argument) {
        assert(argument.formula_facts->0.all_factors_positive());
    }
}

/// The risk of a division by zero is ruled out only where no number that the argument can be is
/// zero, or where it is built of factors that are above zero.
pub proof fn ruled_out_divisors_are_not_zero(
    origin: RiskOriginView,
    argument: ValueStateView,
    x: U256,
)
    requires
        origin.obligation_kind is NonZeroDivisor,
        discharged_spec(origin, argument),
        argument.admits(x),
        !has_positive_factors(argument),
    ensures
        x@ != 0,
{
    arguments_rule_out_what_cannot_arise(origin, argument);
}

/// The risk of a denominator with a weak factor is ruled out only where the argument is built of
/// factors that are above zero.
pub proof fn ruled_out_factors_are_positive(
    origin: RiskOriginView,
    argument: ValueStateView,
    i: int,
)
    requires
        origin.obligation_kind is IndependentFactorPositivity,
        discharged_spec(origin, argument),
    ensures
        argument.formula_facts is Some,
        argument.formula_facts->0.factors.len() > 0,
        0 <= i < argument.formula_facts->0.factors.len()
            ==> argument.formula_facts->0.factors[i].strict_positive,
{
    arguments_rule_out_what_cannot_arise(origin, argument);
}

/// Any other risk is ruled out only where no number that the argument can be exceeds the threshold.
pub proof fn ruled_out_values_keep_below_the_threshold(
    origin: RiskOriginView,
    argument: ValueStateView,
    x: U256,
)
    requires
        origin.obligation_kind is Absent || origin.obligation_kind is RoundingConsistency,
        discharged_spec(origin, argument),
        argument.admits(x),
    ensures
        origin.threshold is Some,
        x@ <= origin.threshold->0@,
{
    arguments_rule_out_what_cannot_arise(origin, argument);
}

/// A risk that a function returns reaches the caller where it comes with no argument, or where the
/// argument that it comes with lets it arise.
pub proof fn risks_that_may_arise_reach_the_caller(
    c: Ctx,
    call: ModuleCall,
    exp: Exp,
    arguments: Seq<ValueStateView>,
    st: AbstractStateView,
    i: int,
    j: int,
)
    requires
        c.summary_of(call.callee) is Some,
        0 <= i < c.summary_of(call.callee)->0.len(),
        0 <= j < c.summary_of(call.callee)->0[i].risky_origins.len(),
        forall|p: int| #[trigger]
            comes_with(c.summary_of(call.callee)->0[i].risky_origins[j], arguments, p)
                ==> may_arise(c.summary_of(call.callee)->0[i].risky_origins[j], arguments[p]),
    ensures
        carries(
            call_values_spec(c, call, exp, arguments, st)[i].risky_origins,
            c.summary_of(call.callee)->0[i].risky_origins[j].key,
        ),
{
    let origin = c.summary_of(call.callee)->0[i].risky_origins[j];
    if let Some(p) = origin.source_param_index {
        if p < arguments.len() {
            assert(comes_with(origin, arguments, p as int));
            arguments_rule_out_what_cannot_arise(origin, arguments[p as int]);
        }
    }
    callee_risks_reach_the_caller(c, call, exp, arguments, st, i, j, 0, origin.key);
}

/// A division in a function by one of its parameters is a risk of every call that passes a value
/// there that may be zero.
pub proof fn zero_arguments_reach_the_caller(
    c: Ctx,
    call: ModuleCall,
    exp: Exp,
    arguments: Seq<ValueStateView>,
    st: AbstractStateView,
    i: int,
    j: int,
    p: int,
    x: U256,
)
    requires
        c.summary_of(call.callee) is Some,
        0 <= i < c.summary_of(call.callee)->0.len(),
        0 <= j < c.summary_of(call.callee)->0[i].risky_origins.len(),
        comes_with(c.summary_of(call.callee)->0[i].risky_origins[j], arguments, p),
        c.summary_of(call.callee)->0[i].risky_origins[j].obligation_kind is NonZeroDivisor,
        arguments[p].admits(x),
        x@ == 0,
        !has_positive_factors(arguments[p]),
    ensures
        carries(
            call_values_spec(c, call, exp, arguments, st)[i].risky_origins,
            c.summary_of(call.callee)->0[i].risky_origins[j].key,
        ),
{
    risks_that_may_arise_reach_the_caller(c, call, exp, arguments, st, i, j);
}

/// A shift or a cast in a function of one of its parameters is a risk of every call that passes a
/// value there that may exceed the threshold.
pub proof fn large_arguments_reach_the_caller(
    c: Ctx,
    call: ModuleCall,
    exp: Exp,
    arguments: Seq<ValueStateView>,
    st: AbstractStateView,
    i: int,
    j: int,
    p: int,
    x: U256,
)
    requires
        c.summary_of(call.callee) is Some,
        0 <= i < c.summary_of(call.callee)->0.len(),
        0 <= j < c.summary_of(call.callee)->0[i].risky_origins.len(),
        comes_with(c.summary_of(call.callee)->0[i].risky_origins[j], arguments, p),
        c.summary_of(call.callee)->0[i].risky_origins[j].obligation_kind is Absent,
        arguments[p].admits(x),
        c.summary_of(call.callee)->0[i].risky_origins[j].threshold is Some
            ==> c.summary_of(call.callee)->0[i].risky_origins[j].threshold->0@ < x@,
    ensures
        carries(
            call_values_spec(c, call, exp, arguments, st)[i].risky_origins,
            c.summary_of(call.callee)->0[i].risky_origins[j].key,
        ),
{
    risks_that_may_arise_reach_the_caller(c, call, exp, arguments, st, i, j);
}

/// Whether a risk of a returned value is one of an argument that the value depends on.
pub open spec fn is_passed_on(
    origin: RiskOriginView,
    returned: ReturnSummaryView,
    arguments: Seq<ValueStateView>,
) -> bool {
    exists|p: int|
        0 <= p < arguments.len() && returned.parameter_dependencies.contains(p as usize) && (
        #[trigger] arguments[p]).risky_origins.contains(origin)
}

/// Whether a risk is one of the callee as its caller sees it: the same but for the parameter that
/// it comes with, and not the helper's own.
pub open spec fn is_seen_by_the_caller(
    origin: RiskOriginView,
    callee: RiskOriginView,
    arguments: Seq<ValueStateView>,
) -> bool {
    &&& origin == (RiskOriginView {
        source_param_index: origin.source_param_index,
        helper_like: false,
        ..callee
    })
    &&& forall|p: int| #[trigger]
        comes_with(callee, arguments, p) ==> may_arise(callee, arguments[p])
    &&& (forall|p: int| !#[trigger] comes_with(callee, arguments, p))
        ==> origin.source_param_index is None
    &&& forall|p: int, q: usize|
        #![trigger comes_with(callee, arguments, p), set![q]]
        comes_with(callee, arguments, p) && arguments[p].parameter_dependencies == set![q]
            ==> origin.source_param_index == Some(q)
    &&& forall|p: int, q: usize|
        #![trigger comes_with(callee, arguments, p), set![q]]
        comes_with(callee, arguments, p) && origin.source_param_index == Some(q)
            ==> arguments[p].parameter_dependencies == set![q]
}

/// Whether a risk is one of the callee that may arise with these arguments.
pub open spec fn is_of_the_callee(
    origin: RiskOriginView,
    returned: Seq<RiskOriginView>,
    arguments: Seq<ValueStateView>,
) -> bool {
    exists|j: int|
        0 <= j < returned.len() && is_seen_by_the_caller(
            origin,
            #[trigger] returned[j],
            arguments,
        )
}

pub proof fn lemma_only_new(origins: Seq<RiskOriginView>, extra: Seq<RiskOriginView>, n: nat, k: int)
    requires
        n <= extra.len(),
        0 <= k < push_all_new(origins, extra, n).len(),
    ensures
        origins.contains(push_all_new(origins, extra, n)[k]) || extra.contains(
            push_all_new(origins, extra, n)[k],
        ),
    decreases n,
{
    if n > 0 {
        let before = push_all_new(origins, extra, (n - 1) as nat);
        if k < before.len() {
            lemma_only_new(origins, extra, (n - 1) as nat, k);
            assert(push_all_new(origins, extra, n)[k] == before[k]);
        } else {
            assert(push_all_new(origins, extra, n)[k] == extra[n - 1]);
        }
    }
}

proof fn lemma_only_passed_on(
    returned: ReturnSummaryView,
    arguments: Seq<ValueStateView>,
    n: nat,
    k: int,
)
    requires
        n <= arguments.len(),
        0 <= k < passed_on_spec(
            returned.parameter_dependencies,
            arguments,
            n,
            Seq::empty(),
        ).1.len(),
    ensures
        is_passed_on(
            passed_on_spec(returned.parameter_dependencies, arguments, n, Seq::empty()).1[k],
            returned,
            arguments,
        ),
    decreases n,
{
    if n > 0 {
        let before = passed_on_spec(
            returned.parameter_dependencies,
            arguments,
            (n - 1) as nat,
            Seq::empty(),
        ).1;
        let now = passed_on_spec(returned.parameter_dependencies, arguments, n, Seq::empty()).1;
        let more = arguments[n - 1].risky_origins;
        if returned.parameter_dependencies.contains((n - 1) as usize) {
            lemma_only_new(before, more, more.len(), k);
            if more.contains(now[k]) {
                assert(arguments[n - 1].risky_origins.contains(now[k]));
            } else {
                let m = choose|m: int| 0 <= m < before.len() && before[m] == now[k];
                lemma_only_passed_on(returned, arguments, (n - 1) as nat, m);
            }
        } else {
            lemma_only_passed_on(returned, arguments, (n - 1) as nat, k);
        }
    }
}

proof fn lemma_mapped(callee: RiskOriginView, arguments: Seq<ValueStateView>)
    requires
        mapped_origin_spec(callee, arguments) is Some,
    ensures
        is_seen_by_the_caller(mapped_origin_spec(callee, arguments)->0, callee, arguments),
{
    let origin = mapped_origin_spec(callee, arguments)->0;
    assert forall|p: int| #[trigger] comes_with(callee, arguments, p) implies may_arise(
        callee,
        arguments[p],
    ) by {
        arguments_rule_out_what_cannot_arise(callee, arguments[p]);
    }
    if let Some(p) = callee.source_param_index {
        if p < arguments.len() {
            assert(comes_with(callee, arguments, p as int));
        }
    }
    assert forall|p: int, q: usize|
        #![trigger comes_with(callee, arguments, p), set![q]]
        comes_with(callee, arguments, p) && arguments[p].parameter_dependencies == set![
            q,
        ] implies origin.source_param_index == Some(q) by {
        lemma_single(arguments[p].parameter_dependencies, q);
    }
    assert forall|p: int, q: usize|
        #![trigger comes_with(callee, arguments, p), set![q]]
        comes_with(callee, arguments, p) && origin.source_param_index == Some(
            q,
        ) implies arguments[p].parameter_dependencies == set![q] by {
        let s = arguments[p].parameter_dependencies;
        assert(single_spec(s) == Some(q));
        assert(exists|i: usize| s == #[trigger] set![i]);
    }
}

proof fn lemma_only_of_the_callee(
    origins: Seq<RiskOriginView>,
    callee: Seq<RiskOriginView>,
    n: nat,
    arguments: Seq<ValueStateView>,
    k: int,
)
    requires
        n <= callee.len(),
        0 <= k < with_callee_origins_spec(origins, callee, n, arguments).len(),
    ensures
        ({
            let origin = with_callee_origins_spec(origins, callee, n, arguments)[k];
            origins.contains(origin) || is_of_the_callee(origin, callee, arguments)
        }),
    decreases n,
{
    if n > 0 {
        let before = with_callee_origins_spec(origins, callee, (n - 1) as nat, arguments);
        let now = with_callee_origins_spec(origins, callee, n, arguments);
        if k < before.len() {
            lemma_only_of_the_callee(origins, callee, (n - 1) as nat, arguments, k);
            assert(now[k] == before[k]);
        } else {
            lemma_mapped(callee[n - 1], arguments);
            assert(is_seen_by_the_caller(now[k], callee[n - 1], arguments));
        }
    }
}

/// What a call returns carries no other risks: each is one of an argument that the returned value
/// depends on, or one of the callee that the arguments let arise, or that of the division that the
/// call stands for by its name.
pub proof fn calls_carry_no_other_risks(
    c: Ctx,
    call: ModuleCall,
    exp: Exp,
    arguments: Seq<ValueStateView>,
    st: AbstractStateView,
    i: int,
    k: int,
)
    requires
        c.summary_of(call.callee) is Some,
        0 <= i < c.summary_of(call.callee)->0.len(),
        0 <= k < call_values_spec(c, call, exp, arguments, st)[i].risky_origins.len(),
    ensures
        ({
            let returned = c.summary_of(call.callee)->0[i];
            let origin = call_values_spec(c, call, exp, arguments, st)[i].risky_origins[k];
            ||| is_passed_on(origin, returned, arguments)
            ||| is_of_the_callee(origin, returned.risky_origins, arguments)
            ||| contains_text(call.callee.name@, "div"@) && arguments.len() >= 2
                && call.arguments@.len() >= 2 && owes(
                arguments[0],
                arguments[1],
                c.math_mode,
            ) is Some && origin.kind is ReachableWeakDenominator && origin.loc == exp.loc
        }),
{
    let summary = c.summary_of(call.callee)->0;
    lemma_return_values(c, call, exp, arguments, summary, summary.len(), st);
    let base = if i < default_returns_spec(exp.ty).len() {
        default_returns_spec(exp.ty)[i]
    } else {
        ValueStateView::top_spec()
    };
    if i < default_returns_spec(exp.ty).len() {
        lemma_defaults_without_risks(exp.ty, i);
    }
    assert(base.risky_origins =~= Seq::empty());
    reveal(return_value_spec);
    let passed = passed_on_spec(
        summary[i].parameter_dependencies,
        arguments,
        arguments.len(),
        Seq::empty(),
    ).1;
    let callee = summary[i].risky_origins;
    let origins = with_callee_origins_spec(passed, callee, callee.len(), arguments);
    let value = call_values_spec(c, call, exp, arguments, st)[i];
    let origin = value.risky_origins[k];
    if k < origins.len() {
        assert(origin == origins[k]);
        lemma_only_of_the_callee(passed, callee, callee.len(), arguments, k);
        if passed.contains(origin) {
            let m = choose|m: int| 0 <= m < passed.len() && passed[m] == origin;
            lemma_only_passed_on(summary[i], arguments, arguments.len(), m);
        }
    } else {
        denominators_owe_what_is_reported(
            c,
            exp,
            arguments[0],
            arguments[1],
            call.arguments@[1],
            st,
        );
        assert(origin == call_denominator_spec(c, call, exp, arguments, st)->0);
    }
}

/// Whether a returned value depends on a parameter of the caller: one of the arguments does that it
/// depends on itself.
pub open spec fn depends_through(
    deps: Set<usize>,
    arguments: Seq<ValueStateView>,
    n: nat,
    q: usize,
) -> bool {
    exists|p: int|
        0 <= p < n && deps.contains(p as usize) && (
        #[trigger] arguments[p]).parameter_dependencies.contains(q)
}

proof fn lemma_dependencies(
    deps: Set<usize>,
    arguments: Seq<ValueStateView>,
    n: nat,
    origins: Seq<RiskOriginView>,
    q: usize,
)
    requires
        n <= arguments.len(),
    ensures
        passed_on_spec(deps, arguments, n, origins).0.contains(q) <==> depends_through(
            deps,
            arguments,
            n,
            q,
        ),
    decreases n,
{
    if n > 0 {
        lemma_dependencies(deps, arguments, (n - 1) as nat, origins, q);
        if depends_through(deps, arguments, n, q) {
            let p = choose|p: int|
                0 <= p < n && deps.contains(p as usize) && (
                #[trigger] arguments[p]).parameter_dependencies.contains(q);
            if p < n - 1 {
                assert(depends_through(deps, arguments, (n - 1) as nat, q));
            }
        }
        if deps.contains((n - 1) as usize) && arguments[n - 1].parameter_dependencies.contains(q) {
            assert(depends_through(deps, arguments, n, q));
        }
    }
}

/// What a call to an analyzed function returns depends on the parameters of the caller through the
/// arguments that the function returns something of. Of its range only the type is known.
pub proof fn calls_pass_dependencies_on(
    c: Ctx,
    call: ModuleCall,
    exp: Exp,
    arguments: Seq<ValueStateView>,
    st: AbstractStateView,
    i: int,
    q: usize,
)
    requires
        c.summary_of(call.callee) is Some,
        0 <= i < c.summary_of(call.callee)->0.len(),
    ensures
        ({
            let value = call_values_spec(c, call, exp, arguments, st)[i];
            &&& value.parameter_dependencies.contains(q) <==> depends_through(
                c.summary_of(call.callee)->0[i].parameter_dependencies,
                arguments,
                arguments.len(),
                q,
            )
            &&& i < default_returns_spec(exp.ty).len() ==> value.interval
                == default_returns_spec(exp.ty)[i].interval && value.bit_facts
                == default_returns_spec(exp.ty)[i].bit_facts
            &&& i >= default_returns_spec(exp.ty).len() ==> value.interval.lower is None
                && value.interval.upper is None && value.bit_facts is None
            &&& value.term is Unknown
        }),
{
    let summary = c.summary_of(call.callee)->0;
    lemma_return_values(c, call, exp, arguments, summary, summary.len(), st);
    reveal(return_value_spec);
    let base = if i < default_returns_spec(exp.ty).len() {
        default_returns_spec(exp.ty)[i]
    } else {
        ValueStateView::top_spec()
    };
    lemma_dependencies(
        summary[i].parameter_dependencies,
        arguments,
        arguments.len(),
        base.risky_origins,
        q,
    );
}

/// Whether a value is any number of a type as wide as this, or anything at all where the type has no
/// width, and carries nothing along.
pub open spec fn is_anything_of(value: ValueStateView, width: Option<u16>) -> bool {
    &&& width is None ==> value.interval.lower is None && value.interval.upper is None
        && value.bit_facts is None
    &&& width is Some ==> value.interval.lower is Some && value.interval.lower->0@ == 0
        && value.interval.upper is Some && value.interval.upper->0@ == pow2(width->0 as nat) - 1
        && value.bit_facts is Some && value.bit_facts->0.width == width->0
    &&& !value.interval.bottom
    &&& value.risky_origins.len() == 0
    &&& value.formula_facts is None
    &&& value.parameter_dependencies == Set::<usize>::empty()
}

/// Of what a function returns that is not analyzed only the type is known; where it returns nothing,
/// there is one value of which nothing is known.
pub proof fn other_calls_return_anything(
    c: Ctx,
    call: ModuleCall,
    exp: Exp,
    arguments: Seq<ValueStateView>,
    st: AbstractStateView,
    i: int,
)
    requires
        c.summary_of(call.callee) is None,
    ensures
        ({
            let values = call_values_spec(c, call, exp, arguments, st);
            match exp.ty {
                Type::Unit => values.len() == 1 && is_anything_of(values[0], None),
                Type::Single(_) => values.len() == 1 && is_anything_of(
                    values[0],
                    type_width_spec(exp.ty),
                ),
                Type::Multiple(types) => {
                    &&& types@.len() > 0 ==> values.len() == types@.len()
                    &&& 0 <= i < types@.len() ==> is_anything_of(
                        values[i],
                        single_width_spec(types@[i]),
                    )
                    &&& types@.len() == 0 ==> values.len() == 1 && is_anything_of(values[0], None)
                },
            }
        }),
{
    if let Some(width) = type_width_spec(exp.ty) {
        lemma_of_width(width);
    }
    if let Type::Multiple(types) = exp.ty {
        if 0 <= i < types@.len() && single_width_spec(types@[i]) is Some {
            lemma_of_width(single_width_spec(types@[i])->0);
        }
    }
}

proof fn lemma_of_width(width: u16)
    requires
        is_width(width),
    ensures
        is_anything_of(ValueStateView::of_width(width), Some(width)),
{
    nothing_but_the_type_is_known(width, 0);
}

} // verus!
