//! Calls: what passes into a function, and what comes back.

use crate::ast::{Exp, ModuleCall, Type};
use crate::domain::formula::{ExprOp, FormulaFacts, FormulaFactsView, RoundingMode};
use crate::domain::index_set::{single_spec, IndexSet};
use crate::domain::risk::{
    push_all_new, push_new, push_origin, push_origins, ObligationKind, RiskOrigin, RiskOriginView,
};
use crate::domain::state::{AbstractState, AbstractStateView};
use crate::domain::value::{single_interval, type_interval, ValueState, ValueStateView};
use crate::model::{opt_view, views, Dup};
use crate::report::{SecurityFinding, SecurityFindingView, SinkKind};
use crate::sinks::{classify_call_sink, classify_call_sink_spec, SemanticCallSink};
use crate::smt::bounds::{proven_non_zero, proven_non_zero_spec};
use crate::summaries::{ReturnSummary, ReturnSummaryView};
use crate::text::{contains, contains_text, lower, to_lower};
use crate::transfer::context::{Ctx, FunctionAnalyzer};
use crate::transfer::emit::{emit_value_spec, weak_denominator_spec};
use crate::transfer::formulas::{combine_formula, combine_spec};
use vstd::prelude::*;

verus! {

/// The function that a call names, as messages show it.
pub open spec fn callee_text_spec(call: ModuleCall) -> Seq<char> {
    call.callee.module.text@ + "::"@ + call.callee.name@
}

fn callee_text(call: &ModuleCall) -> (r: String)
    ensures
        r@ == callee_text_spec(*call),
{
    let mut r: String = call.callee.module.text.clone();
    r.append("::");
    r.append(call.callee.name.as_str());
    r
}

/// What is said about a call as a sink.
pub open spec fn call_detail_spec(call: ModuleCall, sink: SemanticCallSink) -> Seq<char> {
    callee_text_spec(call) + " ["@ + sink.label_spec() + "]"@
}

/// What is reported when the first `n` arguments pass into a call that is a sink.
pub open spec fn emit_arguments_spec(
    c: Ctx,
    call: ModuleCall,
    sink: SemanticCallSink,
    exp: Exp,
    arguments: Seq<ValueStateView>,
    n: nat,
    st: AbstractStateView,
) -> Seq<SecurityFindingView>
    decreases n,
{
    if n == 0 || n > arguments.len() {
        Seq::empty()
    } else {
        emit_arguments_spec(c, call, sink, exp, arguments, (n - 1) as nat, st) + emit_value_spec(
            c,
            arguments[n - 1],
            exp.loc,
            SinkKind::CallArgument,
            sink is KnownAssetMovementApi,
            st,
            Some(call_detail_spec(call, sink)),
        )
    }
}

/// What is reported when the arguments pass into a call.
#[verifier::opaque]
pub open spec fn call_findings_spec(
    c: Ctx,
    call: ModuleCall,
    exp: Exp,
    arguments: Seq<ValueStateView>,
    st: AbstractStateView,
) -> Seq<SecurityFindingView> {
    match classify_call_sink_spec(call, c.summary_of(call.callee) is Some) {
        Some(sink) => emit_arguments_spec(c, call, sink, exp, arguments, arguments.len(), st),
        None => Seq::empty(),
    }
}

/// Arbitrary values of the types that a call returns.
pub open spec fn default_returns_spec(ty: Type) -> Seq<ValueStateView> {
    match ty {
        Type::Unit => Seq::empty(),
        Type::Single(_) => seq![ValueStateView::of_type(ty)],
        Type::Multiple(types) => Seq::new(
            types@.len(),
            |i: int| ValueStateView::of_single(types@[i]),
        ),
    }
}

pub fn default_returns(ty: &Type) -> (r: Vec<ValueState>)
    ensures
        views(r@) == default_returns_spec(*ty),
{
    let mut r: Vec<ValueState> = Vec::new();
    match ty {
        Type::Unit => {
            assert(views(r@) =~= Seq::<ValueStateView>::empty());
        },
        Type::Single(_) => {
            let value: ValueState = type_interval(ty);
            r.push(value);
            assert(views(r@) =~= seq![value@]);
        },
        Type::Multiple(types) => {
            let ghost wanted = default_returns_spec(*ty);
            let mut i: usize = 0;
            while i < types.len()
                invariant
                    i <= types@.len(),
                    wanted == Seq::new(
                        types@.len(),
                        |i: int| ValueStateView::of_single(types@[i]),
                    ),
                    views(r@) =~= wanted.take(i as int),
                decreases types@.len() - i,
            {
                let ghost start = r@;
                let value: ValueState = single_interval(&types[i]);
                r.push(value);
                assert(views(r@) =~= views(start).push(value@));
                i = i + 1;
            }
            assert(wanted.take(i as int) =~= wanted);
        },
    }
    r
}

/// Whether an argument is such that a risk of the callee does not arise.
pub open spec fn discharged_spec(origin: RiskOriginView, argument: ValueStateView) -> bool {
    match origin.obligation_kind {
        ObligationKind::NonZeroDivisor => proven_non_zero_spec(argument),
        ObligationKind::IndependentFactorPositivity => argument.formula_facts is Some
            && argument.formula_facts->0.all_factors_positive(),
        _ => origin.threshold is Some && argument.interval.at_most_spec(origin.threshold->0),
    }
}

pub fn origin_discharged_by_argument(origin: &RiskOrigin, argument: &ValueState) -> (r: bool)
    ensures
        r == discharged_spec(origin@, argument@),
{
    match origin.obligation_kind {
        ObligationKind::NonZeroDivisor => proven_non_zero(argument),
        ObligationKind::IndependentFactorPositivity => match &argument.formula_facts {
            Some(facts) => facts.all_factors_strict_positive(),
            None => false,
        },
        _ => match origin.threshold {
            Some(threshold) => argument.interval.at_most(threshold),
            None => false,
        },
    }
}

/// What the first `n` arguments, as far as the returned value depends on them, pass on to it:
/// the parameters that they depend on, and their risks.
pub open spec fn passed_on_spec(
    deps: Set<usize>,
    arguments: Seq<ValueStateView>,
    n: nat,
    origins: Seq<RiskOriginView>,
) -> (Set<usize>, Seq<RiskOriginView>)
    decreases n,
{
    if n == 0 || n > arguments.len() {
        (Set::empty(), origins)
    } else {
        let (set, found) = passed_on_spec(deps, arguments, (n - 1) as nat, origins);
        if deps.contains((n - 1) as usize) {
            (
                set.union(arguments[n - 1].parameter_dependencies),
                push_all_new(
                    found,
                    arguments[n - 1].risky_origins,
                    arguments[n - 1].risky_origins.len(),
                ),
            )
        } else {
            (set, found)
        }
    }
}

/// The argument that a risk of the callee comes from.
pub open spec fn source_argument(
    origin: RiskOriginView,
    arguments: Seq<ValueStateView>,
) -> Option<ValueStateView> {
    match origin.source_param_index {
        Some(p) => if p < arguments.len() {
            Some(arguments[p as int])
        } else {
            None
        },
        None => None,
    }
}

/// A risk of the callee, as the caller sees it; none where the argument discharges it.
pub open spec fn mapped_origin_spec(
    origin: RiskOriginView,
    arguments: Seq<ValueStateView>,
) -> Option<RiskOriginView> {
    let source = source_argument(origin, arguments);
    if source is Some && discharged_spec(origin, source->0) {
        None
    } else {
        Some(
            RiskOriginView {
                source_param_index: match source {
                    Some(argument) => single_spec(argument.parameter_dependencies),
                    None => None,
                },
                helper_like: false,
                ..origin
            },
        )
    }
}

/// The risks with the first `n` of the callee.
pub open spec fn with_callee_origins_spec(
    origins: Seq<RiskOriginView>,
    callee: Seq<RiskOriginView>,
    n: nat,
    arguments: Seq<ValueStateView>,
) -> Seq<RiskOriginView>
    decreases n,
{
    if n == 0 || n > callee.len() {
        origins
    } else {
        let before = with_callee_origins_spec(origins, callee, (n - 1) as nat, arguments);
        match mapped_origin_spec(callee[n - 1], arguments) {
            Some(origin) => push_new(before, origin),
            None => before,
        }
    }
}

/// The direction of rounding that the name of a function tells of.
#[verifier::opaque]
pub open spec fn named_direction_spec(name: Seq<char>) -> Option<RoundingMode> {
    let lowered = lower(name);
    if contains_text(lowered, "ceil"@) || contains_text(lowered, "round_up"@) || contains_text(
        lowered,
        "div_up"@,
    ) {
        Some(RoundingMode::RoundUp)
    } else if contains_text(lowered, "floor"@) || contains_text(lowered, "round_down"@)
        || contains_text(lowered, "div_down"@) {
        Some(RoundingMode::RoundDown)
    } else {
        None
    }
}

fn named_direction(name: &str) -> (r: Option<RoundingMode>)
    ensures
        r == named_direction_spec(name@),
{
    reveal(named_direction_spec);
    let text: String = to_lower(name);
    let lowered: &str = text.as_str();
    if contains(lowered, "ceil") || contains(lowered, "round_up") || contains(lowered, "div_up") {
        Some(RoundingMode::RoundUp)
    } else if contains(lowered, "floor") || contains(lowered, "round_down") || contains(
        lowered,
        "div_down",
    ) {
        Some(RoundingMode::RoundDown)
    } else {
        None
    }
}

/// A formula with the rounding that the name of the function tells of.
pub open spec fn named_rounding_spec(facts: FormulaFactsView, call: ModuleCall) -> FormulaFactsView {
    match named_direction_spec(call.callee.name@) {
        Some(mode) => FormulaFactsView {
            rounding_mode: mode,
            rounding_trace: facts.rounding_trace.push(
                callee_text_spec(call) + if mode is RoundUp {
                    " => round_up"@
                } else {
                    " => round_down"@
                },
            ),
            ..facts
        },
        None => facts,
    }
}

fn apply_named_rounding(facts: FormulaFacts, call: &ModuleCall) -> (r: FormulaFacts)
    ensures
        r@ == named_rounding_spec(facts@, *call),
{
    let mut facts: FormulaFacts = facts;
    if let Some(mode) = named_direction(call.callee.name.as_str()) {
        let ghost start = facts.rounding_trace@;
        let mut step: String = callee_text(call);
        if mode == RoundingMode::RoundUp {
            step.append(" => round_up");
        } else {
            step.append(" => round_down");
        }
        facts.rounding_mode = mode;
        facts.rounding_trace.push(step);
        assert(views(facts.rounding_trace@) =~= views(start).push(step@));
    }
    facts
}

/// Whether the name says that the function multiplies, or divides, its first two arguments.
pub open spec fn acts_as(call: ModuleCall, word: Seq<char>, arguments: Seq<ValueStateView>) -> bool {
    contains_text(call.callee.name@, word) && arguments.len() >= 2
}

/// The risk of the division that a call stands for by its name.
pub open spec fn call_denominator_spec(
    c: Ctx,
    call: ModuleCall,
    exp: Exp,
    arguments: Seq<ValueStateView>,
    st: AbstractStateView,
) -> Option<RiskOriginView> {
    if acts_as(call, "div"@, arguments) && call.arguments@.len() >= 2 {
        weak_denominator_spec(c, exp, arguments[0], arguments[1], call.arguments@[1], st)
    } else {
        None
    }
}

/// The formula of what a call returns, as far as its name tells.
pub open spec fn call_formula_spec(
    call: ModuleCall,
    arguments: Seq<ValueStateView>,
    otherwise: Option<FormulaFactsView>,
) -> Option<FormulaFactsView> {
    let facts = if acts_as(call, "div"@, arguments) {
        combine_spec(ExprOp::Div, arguments[0], arguments[1], callee_text_spec(call))
    } else if acts_as(call, "mul"@, arguments) {
        combine_spec(ExprOp::Mul, arguments[0], arguments[1], callee_text_spec(call))
    } else {
        otherwise
    };
    match facts {
        Some(facts) => Some(named_rounding_spec(facts, call)),
        None => None,
    }
}

/// One of the values that a call to an analyzed function returns.
#[verifier::opaque]
pub open spec fn return_value_spec(
    c: Ctx,
    call: ModuleCall,
    exp: Exp,
    arguments: Seq<ValueStateView>,
    base: ValueStateView,
    summary: ReturnSummaryView,
    st: AbstractStateView,
) -> ValueStateView {
    let (deps, passed) = passed_on_spec(
        summary.parameter_dependencies,
        arguments,
        arguments.len(),
        base.risky_origins,
    );
    let origins = with_callee_origins_spec(
        passed,
        summary.risky_origins,
        summary.risky_origins.len(),
        arguments,
    );
    ValueStateView {
        parameter_dependencies: deps,
        risky_origins: match call_denominator_spec(c, call, exp, arguments, st) {
            Some(origin) => push_new(origins, origin),
            None => origins,
        },
        formula_facts: call_formula_spec(call, arguments, base.formula_facts),
        ..base
    }
}

/// The first `n` of the values that a call to an analyzed function returns.
pub open spec fn return_values_spec(
    c: Ctx,
    call: ModuleCall,
    exp: Exp,
    arguments: Seq<ValueStateView>,
    summary: Seq<ReturnSummaryView>,
    n: nat,
    st: AbstractStateView,
) -> Seq<ValueStateView>
    decreases n,
{
    if n == 0 || n > summary.len() {
        Seq::empty()
    } else {
        let defaults = default_returns_spec(exp.ty);
        return_values_spec(c, call, exp, arguments, summary, (n - 1) as nat, st).push(
            return_value_spec(
                c,
                call,
                exp,
                arguments,
                if n - 1 < defaults.len() {
                    defaults[n - 1]
                } else {
                    ValueStateView::top_spec()
                },
                summary[n - 1],
                st,
            ),
        )
    }
}

/// The values that a call returns.
pub open spec fn call_values_spec(
    c: Ctx,
    call: ModuleCall,
    exp: Exp,
    arguments: Seq<ValueStateView>,
    st: AbstractStateView,
) -> Seq<ValueStateView> {
    let defaults = default_returns_spec(exp.ty);
    match c.summary_of(call.callee) {
        None => if defaults.len() == 0 {
            seq![ValueStateView::of_type(exp.ty)]
        } else {
            defaults
        },
        Some(summary) => if summary.len() == 0 {
            defaults
        } else {
            return_values_spec(c, call, exp, arguments, summary, summary.len(), st)
        },
    }
}

fn passed_on(deps: &IndexSet, arguments: &Vec<ValueState>, origins: &mut Vec<RiskOrigin>) -> (r:
    IndexSet)
    ensures
        (r@, views(final(origins)@)) == passed_on_spec(
            deps@,
            views(arguments@),
            arguments@.len(),
            views(old(origins)@),
        ),
{
    let ghost start = views(origins@);
    let ghost all = views(arguments@);
    let mut r: IndexSet = IndexSet::new();
    let mut i: usize = 0;
    while i < arguments.len()
        invariant
            i <= arguments@.len(),
            all == views(arguments@),
            (r@, views(origins@)) == passed_on_spec(deps@, all, i as nat, start),
        decreases arguments@.len() - i,
    {
        if deps.contains(i) {
            r.extend(&arguments[i].parameter_dependencies);
            push_origins(origins, &arguments[i].risky_origins);
        }
        i = i + 1;
    }
    r
}

fn mapped_origin(origin: &RiskOrigin, arguments: &Vec<ValueState>) -> (r: Option<RiskOrigin>)
    ensures
        opt_view(r) == mapped_origin_spec(origin@, views(arguments@)),
{
    let mut mapped: RiskOrigin = origin.dup();
    mapped.source_param_index = None;
    mapped.helper_like = false;
    if let Some(p) = origin.source_param_index {
        if p < arguments.len() {
            if origin_discharged_by_argument(origin, &arguments[p]) {
                return None;
            }
            mapped.source_param_index = arguments[p].parameter_dependencies.single();
        }
    }
    Some(mapped)
}

fn add_callee_origins(
    origins: &mut Vec<RiskOrigin>,
    callee: &Vec<RiskOrigin>,
    arguments: &Vec<ValueState>,
)
    ensures
        views(final(origins)@) == with_callee_origins_spec(
            views(old(origins)@),
            views(callee@),
            callee@.len(),
            views(arguments@),
        ),
{
    let ghost start = views(origins@);
    let mut i: usize = 0;
    while i < callee.len()
        invariant
            i <= callee@.len(),
            views(origins@) == with_callee_origins_spec(
                start,
                views(callee@),
                i as nat,
                views(arguments@),
            ),
        decreases callee@.len() - i,
    {
        if let Some(origin) = mapped_origin(&callee[i], arguments) {
            push_origin(origins, origin);
        }
        i = i + 1;
    }
}

fn call_formula(
    call: &ModuleCall,
    arguments: &Vec<ValueState>,
    otherwise: Option<FormulaFacts>,
) -> (r: Option<FormulaFacts>)
    ensures
        opt_view(r) == call_formula_spec(*call, views(arguments@), opt_view(otherwise)),
{
    let name: &str = call.callee.name.as_str();
    let facts: Option<FormulaFacts> = if arguments.len() >= 2 && contains(name, "div") {
        combine_formula(ExprOp::Div, &arguments[0], &arguments[1], callee_text(call))
    } else if arguments.len() >= 2 && contains(name, "mul") {
        combine_formula(ExprOp::Mul, &arguments[0], &arguments[1], callee_text(call))
    } else {
        otherwise
    };
    match facts {
        Some(facts) => Some(apply_named_rounding(facts, call)),
        None => None,
    }
}

impl<'a> FunctionAnalyzer<'a> {
    fn emit_arguments(
        &self,
        call: &ModuleCall,
        exp: &Exp,
        arguments: &Vec<ValueState>,
        state: &AbstractState,
        out: &mut Vec<SecurityFinding>,
    )
        ensures
            views(final(out)@) == views(old(out)@) + call_findings_spec(
                self@,
                *call,
                *exp,
                views(arguments@),
                state@,
            ),
    {
        reveal(call_findings_spec);
        let ghost start = views(out@);
        let ghost all = views(arguments@);
        let known: bool = self.callee(&call.callee).is_some();
        let Some(sink) = classify_call_sink(call, known) else {
            assert(start + Seq::<SecurityFindingView>::empty() =~= start);
            return;
        };
        let mut text: String = callee_text(call);
        text.append(" [");
        text.append(sink.label());
        text.append("]");
        let detail: Option<String> = Some(text);
        let mut i: usize = 0;
        assert(start + emit_arguments_spec(self@, *call, sink, *exp, all, 0, state@) =~= start);
        while i < arguments.len()
            invariant
                i <= arguments@.len(),
                all == views(arguments@),
                opt_view(detail) == Some(call_detail_spec(*call, sink)),
                views(out@) == start + emit_arguments_spec(
                    self@,
                    *call,
                    sink,
                    *exp,
                    all,
                    i as nat,
                    state@,
                ),
            decreases arguments@.len() - i,
        {
            self.emit_value(
                &arguments[i],
                exp.loc,
                SinkKind::CallArgument,
                sink.is_critical(),
                state,
                &detail,
                out,
            );
            i = i + 1;
            assert(views(out@) =~= start + emit_arguments_spec(
                self@,
                *call,
                sink,
                *exp,
                all,
                i as nat,
                state@,
            ));
        }
    }

    fn return_value(
        &self,
        call: &ModuleCall,
        exp: &Exp,
        arguments: &Vec<ValueState>,
        base: ValueState,
        summary: &ReturnSummary,
        state: &AbstractState,
    ) -> (r: ValueState)
        ensures
            r@ == return_value_spec(
                self@,
                *call,
                *exp,
                views(arguments@),
                base@,
                summary@,
                state@,
            ),
    {
        reveal(return_value_spec);
        let mut value: ValueState = base;
        let deps: IndexSet = passed_on(
            &summary.parameter_dependencies,
            arguments,
            &mut value.risky_origins,
        );
        value.parameter_dependencies = deps;
        add_callee_origins(&mut value.risky_origins, &summary.risky_origins, arguments);
        let formula: Option<FormulaFacts> = match &value.formula_facts {
            Some(facts) => Some(facts.dup()),
            None => None,
        };
        value.formula_facts = call_formula(call, arguments, formula);
        if arguments.len() >= 2 && call.arguments.len() >= 2 && contains(
            call.callee.name.as_str(),
            "div",
        ) {
            if let Some(origin) = self.make_weak_denominator_origin(
                exp,
                &arguments[0],
                &arguments[1],
                &call.arguments[1],
                state,
            ) {
                push_origin(&mut value.risky_origins, origin);
            }
        }
        value
    }

    /// The values that a call returns, given those of its arguments.
    pub fn eval_module_call(
        &self,
        call: &ModuleCall,
        exp: &Exp,
        arguments: &Vec<ValueState>,
        state: &AbstractState,
        out: &mut Vec<SecurityFinding>,
    ) -> (r: Vec<ValueState>)
        ensures
            views(r@) == call_values_spec(self@, *call, *exp, views(arguments@), state@),
            views(final(out)@) == views(old(out)@) + call_findings_spec(
                self@,
                *call,
                *exp,
                views(arguments@),
                state@,
            ),
    {
        self.emit_arguments(call, exp, arguments, state, out);
        let defaults: Vec<ValueState> = default_returns(&exp.ty);
        let Some(callee) = self.callee(&call.callee) else {
            if defaults.len() == 0 {
                let mut r: Vec<ValueState> = Vec::new();
                let value: ValueState = type_interval(&exp.ty);
                r.push(value);
                assert(views(r@) =~= seq![value@]);
                return r;
            }
            return defaults;
        };
        let summary: &Vec<ReturnSummary> = &callee.returns;
        if summary.len() == 0 {
            return defaults;
        }
        let ghost all = views(summary@);
        let mut r: Vec<ValueState> = Vec::new();
        let mut i: usize = 0;
        assert(views(r@) =~= return_values_spec(
            self@,
            *call,
            *exp,
            views(arguments@),
            all,
            0,
            state@,
        ));
        while i < summary.len()
            invariant
                i <= summary@.len(),
                all == views(summary@),
                views(defaults@) == default_returns_spec(exp.ty),
                views(r@) == return_values_spec(
                    self@,
                    *call,
                    *exp,
                    views(arguments@),
                    all,
                    i as nat,
                    state@,
                ),
            decreases summary@.len() - i,
        {
            let ghost start = r@;
            let base: ValueState = if i < defaults.len() {
                defaults[i].dup()
            } else {
                ValueState::top()
            };
            let value: ValueState = self.return_value(
                call,
                exp,
                arguments,
                base,
                &summary[i],
                state,
            );
            r.push(value);
            assert(views(r@) =~= views(start).push(value@));
            i = i + 1;
        }
        r
    }
}

} // verus!
