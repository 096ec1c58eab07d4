//! What is reported: where findings come from, and which losses of bits are among them.

use crate::ast::{
    BinOp, Body, Command, CommandKind, Exp, FunctionBody, Loc, ModuleCall, UnannotatedExp,
};
use crate::domain::risk::{origin_key_spec, RiskKind, RiskOriginView};
use crate::domain::state::AbstractStateView;
use crate::domain::value::ValueStateView;
use crate::report::{
    best_findings, best_findings_are_the_best, each_key, is_best, normalized,
    normalized_findings_are_complete, only_the_best, SecurityFindingView, SinkKind,
};
use crate::sinks::{classify_call_sink_spec, sink_priority_spec, SemanticCallSink};
use crate::summaries::ReturnSummaryView;
use crate::transfer::binop::{binop_findings_spec, drops_suspicious, raw_result_spec};
use crate::transfer::call::{call_detail_spec, call_findings_spec, emit_arguments_spec};
use crate::transfer::command::{
    command_spec, commands_spec, emit_returns_spec, is_publicish_spec, is_value_api_spec,
    record_spec, return_detail_spec,
};
use crate::transfer::context::{AnalysisMode, Ctx};
use crate::transfer::describe::{describe_spec, field_path_spec};
use crate::transfer::emit::{
    emit_arithmetic_spec, emit_origins_spec, emit_rounding_spec, emit_sink_spec, emit_value_spec,
    finding_spec, has_rounding_conflict, is_reported, rounding_detail_spec, rounding_origin_spec,
};
use crate::transfer::engine::{
    analyze_spec, block_in_spec, first_progress, run_spec, step_spec, Progress,
};
use crate::transfer::eval::{eval_each_spec, eval_spec, first_or_top_spec};
use crate::transfer::fixpoint::{
    agree_before, entered_spec, entry_states, finished_states_are_a_fixed_point, is_settled,
    lemma_state_ignores_returns, more_steps_change_nothing, neighbours_agree, note_entry,
};
use crate::transfer::losses::{
    all_counts_known, carries_loss, component_losses, every_run_carries_its_losses,
    lemma_component_carried, loss_is_carried, losses_at, losses_before, run_counts_known, Loss,
};
use crate::transfer::program::{summary_of_values, Job};
use crate::transfer::risks::{
    carries, coherent, coherent_summaries, is_key_of, key_with, lemma_one_kind, lemma_origin_key,
};
use crate::transfer::runs::{
    every_run_is_followed, is_read_rightly, is_run, is_visit, state_before, Visit,
};
use crate::transfer::soundness::tracks;
use crate::transfer::validity::{
    all_sound, lemma_commands_sound, lemma_entry_sound, lemma_eval_sound, lemma_join_sound,
    sound_after, sound_state, sound_value,
};
use vstd::prelude::*;

verus! {

/// Whether a finding is one of a risk that reaches a sink and is reported there, with a key of the
/// kind of the risk.
pub open spec fn is_accounted(c: Ctx, finding: SecurityFindingView) -> bool {
    exists|
        origin: RiskOriginView,
        sink_loc: Loc,
        sink_kind: SinkKind,
        financial: bool,
        st: AbstractStateView,
        detail: Option<Seq<char>>,
    |
        finding == #[trigger] finding_spec(origin, sink_loc, sink_kind, financial, st, detail)
            && is_reported(c, origin, sink_kind) && is_key_of(origin.key, origin.kind)
}

pub open spec fn all_accounted(c: Ctx, findings: Seq<SecurityFindingView>) -> bool {
    forall|i: int| 0 <= i < findings.len() ==> is_accounted(c, #[trigger] findings[i])
}

proof fn lemma_coherent_key(origins: Seq<RiskOriginView>, i: int)
    requires
        coherent(origins),
        0 <= i < origins.len(),
    ensures
        is_key_of(origins[i].key, origins[i].kind),
{
    lemma_origin_key(origins[i].kind, origins[i].loc);
}

proof fn lemma_sink_accounted(
    c: Ctx,
    origin: RiskOriginView,
    sink_loc: Loc,
    sink_kind: SinkKind,
    financial: bool,
    st: AbstractStateView,
    detail: Option<Seq<char>>,
)
    requires
        is_key_of(origin.key, origin.kind),
    ensures
        all_accounted(c, emit_sink_spec(c, origin, sink_loc, sink_kind, financial, st, detail)),
{
    if is_reported(c, origin, sink_kind) {
        assert(is_accounted(
            c,
            finding_spec(origin, sink_loc, sink_kind, financial, st, detail),
        ));
    }
}

proof fn lemma_origins_accounted(
    c: Ctx,
    origins: Seq<RiskOriginView>,
    n: nat,
    sink_loc: Loc,
    sink_kind: SinkKind,
    financial: bool,
    st: AbstractStateView,
    detail: Option<Seq<char>>,
)
    requires
        coherent(origins),
    ensures
        all_accounted(
            c,
            emit_origins_spec(c, origins, n, sink_loc, sink_kind, financial, st, detail),
        ),
    decreases n,
{
    if n > 0 && n <= origins.len() {
        lemma_origins_accounted(
            c,
            origins,
            (n - 1) as nat,
            sink_loc,
            sink_kind,
            financial,
            st,
            detail,
        );
        lemma_coherent_key(origins, n - 1);
        lemma_sink_accounted(c, origins[n - 1], sink_loc, sink_kind, financial, st, detail);
    }
}

proof fn lemma_arithmetic_accounted(
    c: Ctx,
    origins: Seq<RiskOriginView>,
    n: nat,
    sink_loc: Loc,
    st: AbstractStateView,
    detail: Option<Seq<char>>,
    suppress_suspicious: bool,
)
    requires
        coherent(origins),
    ensures
        all_accounted(
            c,
            emit_arithmetic_spec(c, origins, n, sink_loc, st, detail, suppress_suspicious),
        ),
    decreases n,
{
    if n > 0 && n <= origins.len() {
        lemma_arithmetic_accounted(
            c,
            origins,
            (n - 1) as nat,
            sink_loc,
            st,
            detail,
            suppress_suspicious,
        );
        lemma_coherent_key(origins, n - 1);
        lemma_sink_accounted(
            c,
            origins[n - 1],
            sink_loc,
            SinkKind::ArithmeticUse,
            false,
            st,
            detail,
        );
    }
}

proof fn lemma_rounding_accounted(
    c: Ctx,
    value: ValueStateView,
    sink_loc: Loc,
    sink_kind: SinkKind,
    financial: bool,
    st: AbstractStateView,
    detail: Option<Seq<char>>,
)
    ensures
        all_accounted(
            c,
            emit_rounding_spec(c, value, sink_loc, sink_kind, financial, st, detail),
        ),
{
    if has_rounding_conflict(value) {
        let sink_detail = rounding_detail_spec(
            value.formula_facts->0,
            detail,
        );
        let expr_text = if sink_detail.len() == 0 {
            "value"@
        } else {
            sink_detail
        };
        let origin = rounding_origin_spec(c, value, sink_loc, st, expr_text);
        assert(is_key_of(origin.key, origin.kind)) by {
            reveal(rounding_origin_spec);
            reveal(is_key_of);
            let kind = RiskKind::ReachableRoundingMismatch;
            lemma_origin_key(kind, sink_loc);
            let tail = choose|tail: Seq<char>|
                origin_key_spec(kind, sink_loc) == #[trigger] key_with(kind, tail);
            let rest = origin.key.subrange(
                origin_key_spec(kind, sink_loc).len() as int,
                origin.key.len() as int,
            );
            assert(origin.key =~= key_with(kind, tail + rest));
        }
        lemma_sink_accounted(
            c,
            origin,
            sink_loc,
            sink_kind,
            financial,
            st,
            if sink_detail.len() == 0 {
                None
            } else {
                Some(sink_detail)
            },
        );
    }
}

proof fn lemma_value_accounted(
    c: Ctx,
    value: ValueStateView,
    sink_loc: Loc,
    sink_kind: SinkKind,
    financial: bool,
    st: AbstractStateView,
    detail: Option<Seq<char>>,
)
    requires
        coherent(value.risky_origins),
    ensures
        all_accounted(c, emit_value_spec(c, value, sink_loc, sink_kind, financial, st, detail)),
{
    lemma_origins_accounted(
        c,
        value.risky_origins,
        value.risky_origins.len(),
        sink_loc,
        sink_kind,
        financial,
        st,
        detail,
    );
    lemma_rounding_accounted(c, value, sink_loc, sink_kind, financial, st, detail);
}

proof fn lemma_arguments_accounted(
    c: Ctx,
    call: ModuleCall,
    sink: SemanticCallSink,
    exp: Exp,
    arguments: Seq<ValueStateView>,
    n: nat,
    st: AbstractStateView,
)
    requires
        coherent_summaries(c.summaries),
        all_sound(c, arguments),
    ensures
        all_accounted(c, emit_arguments_spec(c, call, sink, exp, arguments, n, st)),
    decreases n,
{
    if n > 0 && n <= arguments.len() {
        lemma_arguments_accounted(c, call, sink, exp, arguments, (n - 1) as nat, st);
        assert(sound_value(c, arguments[n - 1]));
        lemma_value_accounted(
            c,
            arguments[n - 1],
            exp.loc,
            SinkKind::CallArgument,
            sink is KnownAssetMovementApi,
            st,
            Some(call_detail_spec(call, sink)),
        );
    }
}

proof fn lemma_returns_accounted(
    c: Ctx,
    command: Command,
    values: Seq<ValueStateView>,
    n: nat,
    st: AbstractStateView,
)
    requires
        coherent_summaries(c.summaries),
        all_sound(c, values),
    ensures
        all_accounted(c, emit_returns_spec(c, command, values, n, st)),
    decreases n,
{
    if n > 0 && n <= values.len() {
        lemma_returns_accounted(c, command, values, (n - 1) as nat, st);
        assert(sound_value(c, values[n - 1]));
        lemma_value_accounted(
            c,
            values[n - 1],
            command.loc,
            SinkKind::PublicReturn,
            is_value_api_spec(c),
            st,
            Some(return_detail_spec(c)),
        );
    }
}

/// What the evaluation of an expression reports is accounted for.
proof fn lemma_eval_accounted(c: Ctx, e: Exp, st: AbstractStateView)
    requires
        coherent_summaries(c.summaries),
        sound_state(c, st),
    ensures
        all_accounted(c, eval_spec(c, e, st).1),
    decreases e, 0nat,
{
    match e.value {
        UnannotatedExp::Freeze(inner)
        | UnannotatedExp::Dereference(inner)
        | UnannotatedExp::Borrow(inner, _)
        | UnannotatedExp::Not(inner) => lemma_eval_accounted(c, *inner, st),
        UnannotatedExp::Multiple(values)
        | UnannotatedExp::Vector(values, _)
        | UnannotatedExp::Pack(values, _)
        | UnannotatedExp::PackVariant(values, _) => lemma_eval_each_accounted(
            c,
            values@,
            values@.len(),
            st,
        ),
        UnannotatedExp::ModuleCall(call) => {
            lemma_eval_each_accounted(c, call.arguments@, call.arguments@.len(), st);
            let arguments = eval_each_spec(c, call.arguments@, call.arguments@.len(), st).0;
            reveal(call_findings_spec);
            if let Some(sink) = classify_call_sink_spec(
                *call,
                c.summary_of(call.callee) is Some,
            ) {
                lemma_arguments_accounted(c, *call, sink, e, arguments, arguments.len(), st);
            }
        },
        UnannotatedExp::Cast(inner, _) => {
            lemma_eval_accounted(c, *inner, st);
            lemma_eval_sound(c, e, st);
            let cast = eval_spec(c, e, st).0[0];
            assert(sound_value(c, cast));
            lemma_arithmetic_accounted(
                c,
                cast.risky_origins,
                cast.risky_origins.len(),
                e.loc,
                st,
                Some(describe_spec(c.function, e)),
                true,
            );
        },
        UnannotatedExp::BinopExp(lhs, op, rhs) => {
            lemma_eval_accounted(c, *lhs, st);
            lemma_eval_accounted(c, *rhs, st);
            lemma_binop_accounted(c, e, *lhs, op, *rhs, st);
        },
        _ => {},
    }
}

proof fn lemma_binop_accounted(
    c: Ctx,
    e: Exp,
    lhs: Exp,
    op: BinOp,
    rhs: Exp,
    st: AbstractStateView,
)
    requires
        coherent_summaries(c.summaries),
        sound_state(c, st),
    ensures
        all_accounted(
            c,
            binop_findings_spec(
                c,
                e,
                lhs,
                first_or_top_spec(eval_spec(c, lhs, st).0),
                op,
                rhs,
                first_or_top_spec(eval_spec(c, rhs, st).0),
                st,
            ),
        ),
{
    reveal(binop_findings_spec);
    lemma_eval_sound(c, lhs, st);
    lemma_eval_sound(c, rhs, st);
    let left = first_or_top_spec(eval_spec(c, lhs, st).0);
    let right = first_or_top_spec(eval_spec(c, rhs, st).0);
    assert(sound_value(c, left)) by {
        if eval_spec(c, lhs, st).0.len() > 0 {
            assert(sound_value(c, eval_spec(c, lhs, st).0[0]));
        }
    }
    assert(sound_value(c, right)) by {
        if eval_spec(c, rhs, st).0.len() > 0 {
            assert(sound_value(c, eval_spec(c, rhs, st).0[0]));
        }
    }
    let detail = Some(describe_spec(c.function, e));
    let raw = raw_result_spec(c, e, lhs, left, op, rhs, right, st);
    let drops = drops_suspicious(op, raw.risky_origins);
    lemma_arithmetic_accounted(
        c,
        left.risky_origins,
        left.risky_origins.len(),
        e.loc,
        st,
        detail,
        drops,
    );
    lemma_arithmetic_accounted(
        c,
        right.risky_origins,
        right.risky_origins.len(),
        e.loc,
        st,
        detail,
        drops,
    );
    lemma_rounding_accounted(c, left, e.loc, SinkKind::ArithmeticUse, false, st, detail);
    lemma_rounding_accounted(c, right, e.loc, SinkKind::ArithmeticUse, false, st, detail);
}

proof fn lemma_eval_each_accounted(c: Ctx, es: Seq<Exp>, n: nat, st: AbstractStateView)
    requires
        coherent_summaries(c.summaries),
        sound_state(c, st),
        n <= es.len(),
    ensures
        all_accounted(c, eval_each_spec(c, es, n, st).1),
        all_sound(c, eval_each_spec(c, es, n, st).0),
    decreases es, n,
{
    if n > 0 {
        lemma_eval_each_accounted(c, es, (n - 1) as nat, st);
        assert(decreases_to!(es => es[n - 1]));
        lemma_eval_accounted(c, es[n - 1], st);
        lemma_eval_sound(c, es[n - 1], st);
        if eval_spec(c, es[n - 1], st).0.len() > 0 {
            assert(sound_value(c, eval_spec(c, es[n - 1], st).0[0]));
        }
    }
}

proof fn lemma_record_sound(c: Ctx, returned: Seq<ValueStateView>, values: Seq<ValueStateView>)
    requires
        all_sound(c, returned),
        all_sound(c, values),
    ensures
        all_sound(c, record_spec(returned, values)),
{
    let r = record_spec(returned, values);
    assert forall|i: int| 0 <= i < r.len() implies sound_value(c, #[trigger] r[i]) by {
        if i < returned.len() && i < values.len() {
            lemma_join_sound(c, returned[i], values[i]);
        }
    }
}

/// What commands report is accounted for, and what they return is sound.
proof fn lemma_commands_accounted(
    c: Ctx,
    commands: Seq<Command>,
    n: nat,
    st: AbstractStateView,
    returned: Seq<ValueStateView>,
)
    requires
        coherent_summaries(c.summaries),
        sound_state(c, st),
        all_sound(c, returned),
    ensures
        all_accounted(c, commands_spec(c, commands, n, st, returned).findings),
        all_sound(c, commands_spec(c, commands, n, st, returned).returned),
    decreases n,
{
    if n > 0 && n <= commands.len() {
        lemma_commands_accounted(c, commands, (n - 1) as nat, st, returned);
        lemma_commands_sound(c, commands, (n - 1) as nat, st, returned);
        let before = commands_spec(c, commands, (n - 1) as nat, st, returned);
        lemma_command_accounted(c, commands[n - 1], before.state, before.returned);
    }
}

proof fn lemma_command_accounted(
    c: Ctx,
    command: Command,
    st: AbstractStateView,
    returned: Seq<ValueStateView>,
)
    requires
        coherent_summaries(c.summaries),
        sound_state(c, st),
        all_sound(c, returned),
    ensures
        all_accounted(c, command_spec(c, command, st, returned).findings),
        all_sound(c, command_spec(c, command, st, returned).returned),
{
    reveal(command_spec);
    match command.value {
        CommandKind::Assign(_, exp)
        | CommandKind::Abort(exp)
        | CommandKind::IgnoreAndPop(exp)
        | CommandKind::JumpIf(exp, _, _) => lemma_eval_accounted(c, exp, st),
        CommandKind::Mutate(target, value) => {
            lemma_eval_accounted(c, value, st);
            lemma_eval_accounted(c, target, st);
            lemma_eval_sound(c, value, st);
            let written = first_or_top_spec(eval_spec(c, value, st).0);
            assert(sound_value(c, written)) by {
                if eval_spec(c, value, st).0.len() > 0 {
                    assert(sound_value(c, eval_spec(c, value, st).0[0]));
                }
            }
            if let Some(path) = field_path_spec(target) {
                lemma_value_accounted(
                    c,
                    written,
                    target.loc,
                    SinkKind::FieldWrite,
                    true,
                    st,
                    Some(path),
                );
            }
        },
        CommandKind::Return(exp) => {
            lemma_eval_accounted(c, exp, st);
            lemma_eval_sound(c, exp, st);
            let values = eval_spec(c, exp, st).0;
            lemma_returns_accounted(c, command, values, values.len(), st);
            lemma_record_sound(c, returned, values);
        },
        _ => {},
    }
}

/// What holds between two steps.
spec fn in_order(c: Ctx, body: Body, p: Progress) -> bool {
    &&& sound_after(c, p.after)
    &&& all_sound(c, p.returned)
    &&& all_accounted(c, p.findings)
}

proof fn lemma_step_accounted(c: Ctx, body: Body, p: Progress)
    requires
        coherent_summaries(c.summaries),
        p.worklist.len() > 0,
        in_order(c, body, p),
    ensures
        in_order(c, body, step_spec(c, body, p)),
{
    reveal(step_spec);
    let label = p.worklist[0];
    let q = step_spec(c, body, p);
    if label < body.blocks@.len() && label < p.after.len() {
        let entry = block_in_spec(c, body, label, p.after);
        let commands = body.blocks@[label as int].commands@;
        lemma_entry_sound(c, body, label, p.after);
        lemma_commands_sound(c, commands, commands.len(), entry, p.returned);
        lemma_commands_accounted(c, commands, commands.len(), entry, p.returned);
        assert forall|l: int| 0 <= l < q.after.len() && #[trigger] q.after[l] is Some implies sound_state(
            c,
            q.after[l]->0,
        ) by {
            assert(l == label || q.after[l] == p.after[l]);
        }
    }
}

proof fn lemma_run_accounted(c: Ctx, body: Body, p: Progress, steps: nat)
    requires
        coherent_summaries(c.summaries),
        in_order(c, body, p),
        run_spec(c, body, p, steps) is Some,
    ensures
        in_order(c, body, run_spec(c, body, p, steps)->0),
    decreases steps,
{
    if p.worklist.len() > 0 {
        lemma_step_accounted(c, body, p);
        lemma_run_accounted(c, body, step_spec(c, body, p), (steps - 1) as nat);
    }
}

/// Every finding of a function is one of a risk that reaches a sink and is reported there.
pub proof fn every_finding_is_a_risk_at_a_sink(c: Ctx, steps: nat)
    requires
        coherent_summaries(c.summaries),
        analyze_spec(c, steps) is Some,
    ensures
        all_accounted(c, analyze_spec(c, steps)->0.findings),
        all_sound(c, analyze_spec(c, steps)->0.returned),
{
    if let FunctionBody::Defined(body) = c.function.body {
        assert(in_order(c, body, first_progress(body)));
        lemma_run_accounted(c, body, first_progress(body), steps);
    }
}

/// The analysis for summaries reports nothing.
pub proof fn summaries_report_nothing(c: Ctx, steps: nat)
    requires
        coherent_summaries(c.summaries),
        c.mode is Summary,
        analyze_spec(c, steps) is Some,
    ensures
        analyze_spec(c, steps)->0.findings.len() == 0,
{
    every_finding_is_a_risk_at_a_sink(c, steps);
    let findings = analyze_spec(c, steps)->0.findings;
    if findings.len() > 0 {
        assert(is_accounted(c, findings[0]));
    }
}

/// How grave a finding is follows from its kind and its sink: one of bitwise arithmetic or of a
/// shift count that is not known is a warning; one of any kind is an error only at a sink that can
/// have the highest priority; and all but these and those of denominators are errors where a field
/// is written. The key of a finding is one of its kind.
pub proof fn severities_follow_the_sinks(c: Ctx, finding: SecurityFindingView)
    requires
        is_accounted(c, finding),
    ensures
        finding.sink_loc is Some,
        finding.kind is SuspiciousBitwiseArithmetic || finding.kind is DynamicU256Shift
            ==> finding.severity is Warning,
        finding.severity !is Warning ==> sink_priority_spec(finding.sink_kind, true) == 3,
        finding.sink_kind is FieldWrite && finding.kind !is SuspiciousBitwiseArithmetic
            && finding.kind !is DynamicU256Shift && finding.kind !is ReachableWeakDenominator
            ==> finding.severity is NonblockingError,
        is_key_of(finding.key, finding.kind),
{
    reveal(finding_spec);
}

/// Whether all findings lie at a sink of this kind, and are errors only where it has the highest
/// priority.
pub open spec fn errors_are_at(
    findings: Seq<SecurityFindingView>,
    sink_kind: SinkKind,
    financial: bool,
) -> bool {
    forall|i: int|
        0 <= i < findings.len() ==> (#[trigger] findings[i]).sink_kind == sink_kind && (
        findings[i].severity !is Warning ==> sink_priority_spec(sink_kind, financial) == 3)
}

proof fn lemma_errors_of_origins(
    c: Ctx,
    origins: Seq<RiskOriginView>,
    n: nat,
    sink_loc: Loc,
    sink_kind: SinkKind,
    financial: bool,
    st: AbstractStateView,
    detail: Option<Seq<char>>,
)
    ensures
        errors_are_at(
            emit_origins_spec(c, origins, n, sink_loc, sink_kind, financial, st, detail),
            sink_kind,
            financial,
        ),
    decreases n,
{
    reveal(finding_spec);
    if n > 0 && n <= origins.len() {
        lemma_errors_of_origins(
            c,
            origins,
            (n - 1) as nat,
            sink_loc,
            sink_kind,
            financial,
            st,
            detail,
        );
    }
}

/// A finding of any kind is an error only at a sink of the highest priority. So where no money is
/// at stake, only fields that are written have errors, and where a value is merely computed with,
/// nothing has.
pub proof fn errors_need_the_highest_priority(
    c: Ctx,
    value: ValueStateView,
    sink_loc: Loc,
    sink_kind: SinkKind,
    financial: bool,
    st: AbstractStateView,
    detail: Option<Seq<char>>,
)
    ensures
        ({
            let findings = emit_value_spec(c, value, sink_loc, sink_kind, financial, st, detail);
            &&& errors_are_at(findings, sink_kind, financial)
            &&& (!financial && sink_kind !is FieldWrite) || sink_kind is ArithmeticUse ==> forall|
                i: int,
            |
                0 <= i < findings.len() ==> (#[trigger] findings[i]).severity is Warning
        }),
{
    reveal(finding_spec);
    lemma_errors_of_origins(
        c,
        value.risky_origins,
        value.risky_origins.len(),
        sink_loc,
        sink_kind,
        financial,
        st,
        detail,
    );
}

proof fn lemma_origin_reported(
    c: Ctx,
    origins: Seq<RiskOriginView>,
    n: nat,
    i: int,
    sink_loc: Loc,
    sink_kind: SinkKind,
    financial: bool,
    st: AbstractStateView,
    detail: Option<Seq<char>>,
)
    requires
        0 <= i < n <= origins.len(),
        is_reported(c, origins[i], sink_kind),
    ensures
        emit_origins_spec(c, origins, n, sink_loc, sink_kind, financial, st, detail).contains(
            finding_spec(origins[i], sink_loc, sink_kind, financial, st, detail),
        ),
    decreases n,
{
    let before = emit_origins_spec(
        c,
        origins,
        (n - 1) as nat,
        sink_loc,
        sink_kind,
        financial,
        st,
        detail,
    );
    let now = emit_origins_spec(c, origins, n, sink_loc, sink_kind, financial, st, detail);
    let finding = finding_spec(origins[i], sink_loc, sink_kind, financial, st, detail);
    if i < n - 1 {
        lemma_origin_reported(
            c,
            origins,
            (n - 1) as nat,
            i,
            sink_loc,
            sink_kind,
            financial,
            st,
            detail,
        );
        let at = choose|at: int| 0 <= at < before.len() && before[at] == finding;
        assert(now[at] == finding);
    } else {
        assert(now[before.len() as int] == finding);
    }
}

/// Where a value reaches a sink, each of its risks that is reported there gives a finding.
pub proof fn risks_at_sinks_are_reported(
    c: Ctx,
    value: ValueStateView,
    i: int,
    sink_loc: Loc,
    sink_kind: SinkKind,
    financial: bool,
    st: AbstractStateView,
    detail: Option<Seq<char>>,
)
    requires
        0 <= i < value.risky_origins.len(),
        is_reported(c, value.risky_origins[i], sink_kind),
    ensures
        emit_value_spec(c, value, sink_loc, sink_kind, financial, st, detail).contains(
            finding_spec(value.risky_origins[i], sink_loc, sink_kind, financial, st, detail),
        ),
{
    let origins = value.risky_origins;
    lemma_origin_reported(
        c,
        origins,
        origins.len(),
        i,
        sink_loc,
        sink_kind,
        financial,
        st,
        detail,
    );
    let part = emit_origins_spec(
        c,
        origins,
        origins.len(),
        sink_loc,
        sink_kind,
        financial,
        st,
        detail,
    );
    let all = emit_value_spec(c, value, sink_loc, sink_kind, financial, st, detail);
    let finding = finding_spec(origins[i], sink_loc, sink_kind, financial, st, detail);
    let at = choose|at: int| 0 <= at < part.len() && part[at] == finding;
    assert(all[at] == finding);
}

/// Whether a finding says that bits were lost at this place.
pub open spec fn tells_loss(finding: SecurityFindingView, loss: Loss) -> bool {
    if loss.left {
        finding.key == origin_key_spec(RiskKind::ReachableShiftTruncation, loss.at) || finding.key
            == origin_key_spec(RiskKind::FakeCheckedShift, loss.at)
    } else {
        finding.key == origin_key_spec(RiskKind::ReachableLossyRightShift, loss.at)
    }
}

/// Whether one of the findings says that bits were lost at this place.
pub open spec fn loss_is_told(findings: Seq<SecurityFindingView>, loss: Loss) -> bool {
    exists|i: int| 0 <= i < findings.len() && tells_loss(#[trigger] findings[i], loss)
}

proof fn lemma_told_in_more(
    few: Seq<SecurityFindingView>,
    many: Seq<SecurityFindingView>,
    loss: Loss,
)
    requires
        loss_is_told(few, loss),
        forall|f: SecurityFindingView| few.contains(f) ==> #[trigger] many.contains(f),
    ensures
        loss_is_told(many, loss),
{
    let i = choose|i: int| 0 <= i < few.len() && tells_loss(#[trigger] few[i], loss);
    assert(few.contains(few[i]));
    assert(many.contains(few[i]));
    let k = choose|k: int| 0 <= k < many.len() && many[k] == few[i];
    assert(tells_loss(many[k], loss));
}

/// The key of a lost bit is one of its kinds only.
proof fn lemma_loss_kind(key: Seq<char>, kind: RiskKind, loss: Loss)
    requires
        is_key_of(key, kind),
        if loss.left {
            key == origin_key_spec(RiskKind::ReachableShiftTruncation, loss.at) || key
                == origin_key_spec(RiskKind::FakeCheckedShift, loss.at)
        } else {
            key == origin_key_spec(RiskKind::ReachableLossyRightShift, loss.at)
        },
    ensures
        kind is ReachableShiftTruncation || kind is FakeCheckedShift || kind
            is ReachableLossyRightShift,
{
    let truncation = RiskKind::ReachableShiftTruncation;
    let fake = RiskKind::FakeCheckedShift;
    let lossy = RiskKind::ReachableLossyRightShift;
    lemma_origin_key(truncation, loss.at);
    lemma_origin_key(fake, loss.at);
    lemma_origin_key(lossy, loss.at);
    if !loss.left {
        lemma_one_kind(key, kind, lossy);
    } else if key == origin_key_spec(truncation, loss.at) {
        lemma_one_kind(key, kind, truncation);
    } else {
        lemma_one_kind(key, kind, fake);
    }
}

/// A loss that a value carries is told where the value is returned from a public function.
proof fn lemma_return_tells(
    c: Ctx,
    command: Command,
    values: Seq<ValueStateView>,
    n: nat,
    k: int,
    st: AbstractStateView,
    loss: Loss,
)
    requires
        c.mode is Findings,
        0 <= k < n <= values.len(),
        coherent(values[k].risky_origins),
        loss_is_carried(values[k].risky_origins, loss),
    ensures
        loss_is_told(emit_returns_spec(c, command, values, n, st), loss),
    decreases n,
{
    let before = emit_returns_spec(c, command, values, (n - 1) as nat, st);
    let now = emit_returns_spec(c, command, values, n, st);
    if k < n - 1 {
        lemma_return_tells(c, command, values, (n - 1) as nat, k, st, loss);
        assert forall|f: SecurityFindingView| before.contains(f) implies #[trigger] now.contains(
            f,
        ) by {
            let at = choose|at: int| 0 <= at < before.len() && before[at] == f;
            assert(now[at] == f);
        }
        lemma_told_in_more(before, now, loss);
    } else {
        let origins = values[k].risky_origins;
        let truncation = origin_key_spec(RiskKind::ReachableShiftTruncation, loss.at);
        let fake = origin_key_spec(RiskKind::FakeCheckedShift, loss.at);
        let lossy = origin_key_spec(RiskKind::ReachableLossyRightShift, loss.at);
        let key = if !loss.left {
            lossy
        } else if carries(origins, truncation) {
            truncation
        } else {
            fake
        };
        assert(carries(origins, key));
        let i = choose|i: int| 0 <= i < origins.len() && (#[trigger] origins[i]).key == key;
        lemma_coherent_key(origins, i);
        lemma_loss_kind(key, origins[i].kind, loss);
        let detail = Some(return_detail_spec(c));
        risks_at_sinks_are_reported(
            c,
            values[k],
            i,
            command.loc,
            SinkKind::PublicReturn,
            is_value_api_spec(c),
            st,
            detail,
        );
        let finding = finding_spec(
            origins[i],
            command.loc,
            SinkKind::PublicReturn,
            is_value_api_spec(c),
            st,
            detail,
        );
        reveal(finding_spec);
        let part = emit_value_spec(
            c,
            values[k],
            command.loc,
            SinkKind::PublicReturn,
            is_value_api_spec(c),
            st,
            detail,
        );
        let at = choose|at: int| 0 <= at < part.len() && part[at] == finding;
        assert(now[before.len() + at] == finding);
        assert(tells_loss(now[before.len() + at], loss));
    }
}

/// The values returned so far do not matter for what commands report.
proof fn lemma_findings_ignore_returns(
    c: Ctx,
    commands: Seq<Command>,
    n: nat,
    st: AbstractStateView,
    a: Seq<ValueStateView>,
    b: Seq<ValueStateView>,
)
    ensures
        commands_spec(c, commands, n, st, a).findings == commands_spec(
            c,
            commands,
            n,
            st,
            b,
        ).findings,
    decreases n,
{
    if n > 0 && n <= commands.len() {
        lemma_findings_ignore_returns(c, commands, (n - 1) as nat, st, a, b);
        lemma_state_ignores_returns(c, commands, (n - 1) as nat, st, a, b);
        reveal(command_spec);
    }
}

/// What the first commands report is among what more of them report.
proof fn lemma_commands_report_more(
    c: Ctx,
    commands: Seq<Command>,
    m: nat,
    n: nat,
    st: AbstractStateView,
)
    requires
        m <= n <= commands.len(),
    ensures
        forall|f: SecurityFindingView|
            commands_spec(c, commands, m, st, Seq::empty()).findings.contains(f)
                ==> #[trigger] commands_spec(c, commands, n, st, Seq::empty()).findings.contains(f),
    decreases n,
{
    if m < n {
        lemma_commands_report_more(c, commands, m, (n - 1) as nat, st);
        let before = commands_spec(c, commands, (n - 1) as nat, st, Seq::empty()).findings;
        let now = commands_spec(c, commands, n, st, Seq::empty()).findings;
        assert forall|f: SecurityFindingView| before.contains(f) implies #[trigger] now.contains(
            f,
        ) by {
            let at = choose|at: int| 0 <= at < before.len() && before[at] == f;
            assert(now[at] == f);
        }
    }
}

/// What a block reports that is entered in a state.
pub open spec fn block_reports(c: Ctx, body: Body, label: int, entry: AbstractStateView) -> Seq<
    SecurityFindingView,
> {
    if entry.unreachable {
        Seq::empty()
    } else {
        let commands = body.blocks@[label].commands@;
        commands_spec(c, commands, commands.len(), entry, Seq::empty()).findings
    }
}

/// Whether the findings hold what all blocks report, as they were last entered.
spec fn holds_reports(
    c: Ctx,
    body: Body,
    entered: Seq<Option<AbstractStateView>>,
    findings: Seq<SecurityFindingView>,
) -> bool {
    forall|l: int, f: SecurityFindingView|
        #![trigger block_reports(c, body, l, entered[l]->0).contains(f)]
        0 <= l < entered.len() && entered[l] is Some && block_reports(
            c,
            body,
            l,
            entered[l]->0,
        ).contains(f) ==> findings.contains(f)
}

proof fn lemma_step_holds(
    c: Ctx,
    body: Body,
    p: Progress,
    entered: Seq<Option<AbstractStateView>>,
)
    requires
        p.worklist.len() > 0,
        entered.len() == p.after.len(),
        holds_reports(c, body, entered, p.findings),
    ensures
        holds_reports(c, body, note_entry(c, body, p, entered), step_spec(c, body, p).findings),
        note_entry(c, body, p, entered).len() == step_spec(c, body, p).after.len(),
{
    reveal(step_spec);
    let label = p.worklist[0];
    let q = step_spec(c, body, p);
    let next = note_entry(c, body, p, entered);
    if label < body.blocks@.len() && label < p.after.len() {
        let entry = block_in_spec(c, body, label, p.after);
        let commands = body.blocks@[label as int].commands@;
        lemma_findings_ignore_returns(
            c,
            commands,
            commands.len(),
            entry,
            p.returned,
            Seq::empty(),
        );
        assert forall|l: int, f: SecurityFindingView|
            #![trigger block_reports(c, body, l, next[l]->0).contains(f)]
            0 <= l < next.len() && next[l] is Some && block_reports(
                c,
                body,
                l,
                next[l]->0,
            ).contains(f) implies q.findings.contains(f) by {
            if l == label {
                let more = block_reports(c, body, l, entry);
                let at = choose|at: int| 0 <= at < more.len() && more[at] == f;
                assert(q.findings[p.findings.len() + at] == f);
            } else {
                assert(block_reports(c, body, l, entered[l]->0).contains(f));
                let at = choose|at: int| 0 <= at < p.findings.len() && p.findings[at] == f;
                assert(q.findings[at] == f);
            }
        }
    } else {
        assert forall|l: int, f: SecurityFindingView|
            #![trigger block_reports(c, body, l, next[l]->0).contains(f)]
            0 <= l < next.len() && next[l] is Some && block_reports(
                c,
                body,
                l,
                next[l]->0,
            ).contains(f) implies q.findings.contains(f) by {
            assert(block_reports(c, body, l, entered[l]->0).contains(f));
        }
    }
}

proof fn lemma_run_holds(
    c: Ctx,
    body: Body,
    p: Progress,
    steps: nat,
    entered: Seq<Option<AbstractStateView>>,
)
    requires
        entered.len() == p.after.len(),
        holds_reports(c, body, entered, p.findings),
        run_spec(c, body, p, steps) is Some,
    ensures
        holds_reports(
            c,
            body,
            entered_spec(c, body, p, steps, entered),
            run_spec(c, body, p, steps)->0.findings,
        ),
    decreases steps,
{
    if p.worklist.len() > 0 {
        lemma_step_holds(c, body, p, entered);
        lemma_run_holds(
            c,
            body,
            step_spec(c, body, p),
            (steps - 1) as nat,
            note_entry(c, body, p, entered),
        );
    }
}

/// The findings of a body hold what each of its blocks reports, entered as it was last.
pub proof fn findings_hold_what_blocks_report(
    c: Ctx,
    body: Body,
    steps: nat,
    label: int,
    finding: SecurityFindingView,
)
    requires
        run_spec(c, body, first_progress(body), steps) is Some,
        0 <= label < entry_states(c, body, steps).len(),
        entry_states(c, body, steps)[label] is Some,
        block_reports(c, body, label, entry_states(c, body, steps)[label]->0).contains(finding),
    ensures
        run_spec(c, body, first_progress(body), steps)->0.findings.contains(finding),
{
    let first = first_progress(body);
    let nothing: Seq<Option<AbstractStateView>> = Seq::new(body.blocks@.len(), |i: int| None);
    assert(holds_reports(c, body, nothing, first.findings));
    lemma_run_holds(c, body, first, steps, nothing);
}

/// Whether a run comes to a return, as the `j`th command of its `i`th block, whose `k`th value
/// lost bits.
pub open spec fn returns_loss(body: Body, run: Seq<Visit>, i: int, j: int, k: int, loss: Loss) -> bool {
    let commands = body.blocks@[run[i].label as int].commands@;
    &&& 0 <= i < run.len()
    &&& 0 <= j < commands.len()
    &&& commands[j].value is Return
    &&& component_losses(
        commands[j].value->Return_0,
        k,
        run[i].values[j],
        losses_before(commands, run[i].values, j as nat, losses_at(body, run, i as nat)),
    ).contains(loss)
}

/// Where a run of a public function returns a value that lost bits in a shift, the loss is among
/// the findings of the function. Left out are losses in shifts by amounts that are not
/// known, and runs that the analysis does not read rightly.
pub proof fn lost_bits_are_reported(
    c: Ctx,
    body: Body,
    steps: nat,
    run: Seq<Visit>,
    i: int,
    j: int,
    k: int,
    loss: Loss,
)
    requires
        coherent_summaries(c.summaries),
        neighbours_agree(body),
        body.start < body.blocks@.len(),
        run_spec(c, body, first_progress(body), steps) is Some,
        is_run(c, body, run_spec(c, body, first_progress(body), steps)->0.after, run),
        is_read_rightly(
            c,
            body,
            run_spec(c, body, first_progress(body), steps)->0.after,
            entry_states(c, body, steps),
            run,
        ),
        run_counts_known(c, body, entry_states(c, body, steps), run, loss.at),
        c.mode is Findings,
        is_publicish_spec(c),
        returns_loss(body, run, i, j, k, loss),
        0 <= k,
    ensures
        loss_is_told(run_spec(c, body, first_progress(body), steps)->0.findings, loss),
{
    let all = run_spec(c, body, first_progress(body), steps)->0.findings;
    let l = run[i].label as int;
    let entry = entry_states(c, body, steps)[l]->0;
    lemma_return_carries(c, body, steps, run, i, j, k, loss);
    lemma_block_tells(c, body, l, entry, j, k, loss);
    assert forall|g: SecurityFindingView| block_reports(c, body, l, entry).contains(
        g,
    ) implies #[trigger] all.contains(g) by {
        findings_hold_what_blocks_report(c, body, steps, l, g);
    }
    lemma_told_in_more(block_reports(c, body, l, entry), all, loss);
}

/// The value that a run returns carries the losses that went into it.
pub proof fn lemma_return_carries(
    c: Ctx,
    body: Body,
    steps: nat,
    run: Seq<Visit>,
    i: int,
    j: int,
    k: int,
    loss: Loss,
)
    requires
        coherent_summaries(c.summaries),
        neighbours_agree(body),
        body.start < body.blocks@.len(),
        run_spec(c, body, first_progress(body), steps) is Some,
        is_run(c, body, run_spec(c, body, first_progress(body), steps)->0.after, run),
        is_read_rightly(
            c,
            body,
            run_spec(c, body, first_progress(body), steps)->0.after,
            entry_states(c, body, steps),
            run,
        ),
        run_counts_known(c, body, entry_states(c, body, steps), run, loss.at),
        returns_loss(body, run, i, j, k, loss),
        0 <= k,
    ensures
        ({
            let l = run[i].label as int;
            let entered = entry_states(c, body, steps);
            let entry = entered[l]->0;
            let st = state_before(c, body, l, entry, j as nat);
            let values = eval_spec(c, body.blocks@[l].commands@[j].value->Return_0, st).0;
            &&& 0 <= l < entered.len()
            &&& entered[l] is Some
            &&& !entry.unreachable
            &&& !st.unreachable
            &&& k < values.len()
            &&& coherent(values[k].risky_origins)
            &&& loss_is_carried(values[k].risky_origins, loss)
        }),
{
    let entered = entry_states(c, body, steps);
    let visit = run[i];
    let l = visit.label as int;
    let commands = body.blocks@[l].commands@;
    let entry = entered[l]->0;
    let st = state_before(c, body, l, entry, j as nat);
    let exp = commands[j].value->Return_0;
    let losses = losses_before(commands, visit.values, j as nat, losses_at(body, run, i as nat));
    assert(is_visit(body, visit));
    assert(tracks(st, visit.values[j]) && tracks(entry, visit.values[0])) by {
        every_run_is_followed(c, body, steps, run, i);
        assert(tracks(state_before(c, body, l, entry, j as nat), run[i].values[j]));
        assert(tracks(state_before(c, body, l, entry, 0), run[i].values[0]));
    }
    assert(entered[l] is Some && l < entered.len()) by {
        finished_states_are_a_fixed_point(c, body, steps);
        every_run_is_followed(c, body, steps, run, i);
    }
    assert(carries_loss(st, losses, loss)) by {
        every_run_carries_its_losses(c, body, steps, run, i, j as nat, loss);
    }
    assert(all_counts_known(c, exp, st, loss.at)) by {
        assert(run[i].values[j] == visit.values[j]);
    }
    assert(sound_state(c, st)) by {
        every_run_is_followed(c, body, steps, run, i);
        lemma_sound_before(c, body, steps, l, j as nat);
    }
    lemma_component_carried(c, exp, k, st, visit.values[j], losses, loss);
    let values = eval_spec(c, exp, st).0;
    lemma_eval_sound(c, exp, st);
    assert(sound_value(c, values[k]));
}

/// A block with a return of a value that carries a loss tells the loss.
proof fn lemma_block_tells(
    c: Ctx,
    body: Body,
    l: int,
    entry: AbstractStateView,
    j: int,
    k: int,
    loss: Loss,
)
    requires
        c.mode is Findings,
        is_publicish_spec(c),
        !entry.unreachable,
        0 <= j < body.blocks@[l].commands@.len(),
        body.blocks@[l].commands@[j].value is Return,
        ({
            let st = state_before(c, body, l, entry, j as nat);
            let values = eval_spec(c, body.blocks@[l].commands@[j].value->Return_0, st).0;
            &&& !st.unreachable
            &&& 0 <= k < values.len()
            &&& coherent(values[k].risky_origins)
            &&& loss_is_carried(values[k].risky_origins, loss)
        }),
    ensures
        loss_is_told(block_reports(c, body, l, entry), loss),
{
    let commands = body.blocks@[l].commands@;
    let st = state_before(c, body, l, entry, j as nat);
    let exp = commands[j].value->Return_0;
    let values = eval_spec(c, exp, st).0;
    lemma_return_tells(c, commands[j], values, values.len(), k, st, loss);
    let told = emit_returns_spec(c, commands[j], values, values.len(), st);
    let before = commands_spec(c, commands, j as nat, entry, Seq::empty());
    let upto = commands_spec(c, commands, (j + 1) as nat, entry, Seq::empty()).findings;
    let found = eval_spec(c, exp, st).1;
    assert(upto == before.findings + (found + told)) by {
        reveal(command_spec);
    }
    assert forall|g: SecurityFindingView| told.contains(g) implies #[trigger] upto.contains(g) by {
        let at = choose|at: int| 0 <= at < told.len() && told[at] == g;
        assert(upto[before.findings.len() + found.len() + at] == g);
    }
    lemma_told_in_more(told, upto, loss);
    lemma_commands_report_more(c, commands, (j + 1) as nat, commands.len(), entry);
    lemma_told_in_more(upto, block_reports(c, body, l, entry), loss);
}

proof fn lemma_sound_before(c: Ctx, body: Body, steps: nat, l: int, j: nat)
    requires
        neighbours_agree(body),
        run_spec(c, body, first_progress(body), steps) is Some,
        0 <= l < body.blocks@.len(),
        run_spec(c, body, first_progress(body), steps)->0.after[l] is Some,
    ensures
        sound_state(c, state_before(c, body, l, entry_states(c, body, steps)[l]->0, j)),
{
    let after = run_spec(c, body, first_progress(body), steps)->0.after;
    let entry = entry_states(c, body, steps)[l]->0;
    finished_states_are_a_fixed_point(c, body, steps);
    assert(is_settled(c, body, l, entry, after));
    let seen = choose|seen: Seq<Option<AbstractStateView>>| #[trigger]
        agree_before(body, l, seen, after) && sound_after(c, seen) && entry == block_in_spec(
            c,
            body,
            l as usize,
            seen,
        );
    lemma_entry_sound(c, body, l as usize, seen);
    lemma_commands_sound(c, body.blocks@[l].commands@, j, entry, Seq::empty());
}

pub proof fn lemma_round_coherent(
    job: Job,
    summaries: Seq<Seq<ReturnSummaryView>>,
    n: nat,
    steps: nat,
)
    requires
        coherent_summaries(summaries),
        n <= job.functions.len(),
        summaries.len() == job.functions.len(),
        job.round_spec(summaries, n, steps) is Some,
    ensures
        coherent_summaries(job.round_spec(summaries, n, steps)->0),
        job.round_spec(summaries, n, steps)->0.len() == n,
    decreases n,
{
    if n > 0 {
        lemma_round_coherent(job, summaries, (n - 1) as nat, steps);
        let before = job.round_spec(summaries, (n - 1) as nat, steps)->0;
        let now = job.round_spec(summaries, n, steps)->0;
        let c = job.ctx(n - 1, summaries, AnalysisMode::Summary);
        if job.kept[n - 1] {
            every_finding_is_a_risk_at_a_sink(c, steps);
        }
        assert forall|f: int, i: int|
            #![trigger now[f][i]]
            0 <= f < now.len() && 0 <= i < now[f].len() implies coherent(
            now[f][i].risky_origins,
        ) by {
            if f < n - 1 {
                assert(now[f] == before[f]);
                assert(coherent(before[f][i].risky_origins));
            } else if job.kept[n - 1] {
                let returned = analyze_spec(c, steps)->0.returned;
                assert(now[f] == summary_of_values(returned));
                assert(sound_value(c, returned[i]));
            } else {
                assert(now[f] == summaries[n - 1]);
                assert(coherent(summaries[n - 1][i].risky_origins));
            }
        }
    }
}

proof fn lemma_rounds_coherent(
    job: Job,
    summaries: Seq<Seq<ReturnSummaryView>>,
    rounds: nat,
    steps: nat,
)
    requires
        coherent_summaries(summaries),
        summaries.len() == job.functions.len(),
        job.rounds_spec(summaries, rounds, steps) is Some,
    ensures
        coherent_summaries(job.rounds_spec(summaries, rounds, steps)->0),
        job.rounds_spec(summaries, rounds, steps)->0.len() == job.functions.len(),
    decreases rounds,
{
    if rounds > 0 {
        lemma_round_coherent(job, summaries, job.functions.len(), steps);
        let next = job.round_spec(summaries, job.functions.len(), steps)->0;
        if next != summaries {
            lemma_rounds_coherent(job, next, (rounds - 1) as nat, steps);
        }
    }
}

/// In what is known of functions, the key of each risk is that of its kind and place.
pub proof fn summaries_are_coherent(job: Job, steps: nat)
    requires
        job.summaries_spec(steps) is Some,
    ensures
        coherent_summaries(job.summaries_spec(steps)->0),
        job.summaries_spec(steps)->0.len() == job.functions.len(),
{
    let nothing: Seq<Seq<ReturnSummaryView>> = Seq::new(
        job.functions.len(),
        |i: int| Seq::empty(),
    );
    lemma_rounds_coherent(job, nothing, 6, steps);
}

/// What each function of an analysis reports is among what all of them report, and all of that is
/// accounted for.
proof fn lemma_reports_gathered(
    job: Job,
    summaries: Seq<Seq<ReturnSummaryView>>,
    n: nat,
    f: int,
    steps: nat,
)
    requires
        coherent_summaries(summaries),
        n <= job.functions.len(),
        job.reports_spec(summaries, n, steps) is Some,
    ensures
        forall|i: int|
            0 <= i < job.reports_spec(summaries, n, steps)->0.len() ==> is_key_of(
                (#[trigger] job.reports_spec(summaries, n, steps)->0[i]).key,
                job.reports_spec(summaries, n, steps)->0[i].kind,
            ),
        0 <= f < n && job.kept[f] ==> {
            let c = job.ctx(f, summaries, AnalysisMode::Findings);
            &&& analyze_spec(c, steps) is Some
            &&& forall|g: SecurityFindingView|
                analyze_spec(c, steps)->0.findings.contains(g) ==> #[trigger] job.reports_spec(
                    summaries,
                    n,
                    steps,
                )->0.contains(g)
        },
    decreases n,
{
    if n > 0 {
        lemma_reports_gathered(job, summaries, (n - 1) as nat, f, steps);
        let before = job.reports_spec(summaries, (n - 1) as nat, steps)->0;
        let now = job.reports_spec(summaries, n, steps)->0;
        let c = job.ctx(n - 1, summaries, AnalysisMode::Findings);
        if job.kept[n - 1] {
            let more = analyze_spec(c, steps)->0.findings;
            every_finding_is_a_risk_at_a_sink(c, steps);
            assert(now == before + more);
            assert forall|i: int| 0 <= i < now.len() implies is_key_of(
                (#[trigger] now[i]).key,
                now[i].kind,
            ) by {
                if i >= before.len() {
                    assert(now[i] == more[i - before.len()]);
                    severities_follow_the_sinks(c, more[i - before.len()]);
                }
            }
            assert forall|g: SecurityFindingView|
                before.contains(g) || more.contains(g) implies #[trigger] now.contains(g) by {
                if before.contains(g) {
                    let at = choose|at: int| 0 <= at < before.len() && before[at] == g;
                    assert(now[at] == g);
                } else {
                    let at = choose|at: int| 0 <= at < more.len() && more[at] == g;
                    assert(now[before.len() + at] == g);
                }
            }
        }
    }
}

/// Where a run of a public function that is analyzed returns a value that lost bits in a shift, the
/// loss is among the findings of the analysis. Left out are losses in shifts by amounts that are
/// not known, and runs that the analysis does not read rightly.
pub proof fn lost_bits_are_found(
    job: Job,
    steps: nat,
    f: int,
    body: Body,
    run: Seq<Visit>,
    i: int,
    j: int,
    k: int,
    loss: Loss,
)
    requires
        job.findings_spec(steps) is Some,
        0 <= f < job.functions.len(),
        job.kept[f],
        job.functions[f].body == FunctionBody::Defined(body),
        neighbours_agree(body),
        body.start < body.blocks@.len(),
        ({
            let c = job.ctx(f, job.summaries_spec(steps)->0, AnalysisMode::Findings);
            &&& run_spec(c, body, first_progress(body), steps) is Some ==> is_run(
                c,
                body,
                run_spec(c, body, first_progress(body), steps)->0.after,
                run,
            ) && is_read_rightly(
                c,
                body,
                run_spec(c, body, first_progress(body), steps)->0.after,
                entry_states(c, body, steps),
                run,
            )
            &&& run_counts_known(c, body, entry_states(c, body, steps), run, loss.at)
            &&& is_publicish_spec(c)
        }),
        returns_loss(body, run, i, j, k, loss),
        0 <= k,
    ensures
        loss_is_told(job.findings_spec(steps)->0, loss),
{
    let summaries = job.summaries_spec(steps)->0;
    let c = job.ctx(f, summaries, AnalysisMode::Findings);
    summaries_are_coherent(job, steps);
    let all = job.reports_spec(summaries, job.functions.len(), steps)->0;
    lemma_reports_gathered(job, summaries, job.functions.len(), f, steps);
    let part = analyze_spec(c, steps)->0.findings;
    lost_bits_are_reported(c, body, steps, run, i, j, k, loss);
    lemma_told_in_more(part, all, loss);
    lemma_told_after_normalizing(all, loss);
}

proof fn lemma_told_after_normalizing(findings: Seq<SecurityFindingView>, loss: Loss)
    requires
        loss_is_told(findings, loss),
        forall|i: int|
            0 <= i < findings.len() ==> is_key_of((#[trigger] findings[i]).key, findings[i].kind),
    ensures
        loss_is_told(normalized(findings), loss),
{
    let best = best_findings(findings);
    let i = choose|i: int| 0 <= i < findings.len() && tells_loss(#[trigger] findings[i], loss);
    assert(exists|b: int| 0 <= b < best.len() && (#[trigger] best[b]).key == findings[i].key) by {
        best_findings_are_the_best(findings);
        reveal(each_key);
    }
    let b = choose|b: int| 0 <= b < best.len() && (#[trigger] best[b]).key == findings[i].key;
    assert(is_key_of(best[b].key, best[b].kind)) by {
        best_findings_are_the_best(findings);
        reveal(only_the_best);
        let j = choose|j: int|
            0 <= j < findings.len() && best[b] == #[trigger] findings[j] && is_best(findings, j);
        assert(is_key_of(findings[j].key, findings[j].kind));
    }
    lemma_loss_kind(best[b].key, best[b].kind, loss);
    let r = normalized(findings);
    assert(r.contains(best[b])) by {
        assert(best.contains(best[b]));
        normalized_findings_are_complete(findings);
    }
    let k = choose|k: int| 0 <= k < r.len() && r[k] == best[b];
    assert(tells_loss(r[k], loss));
}

proof fn lemma_more_steps(c: Ctx, steps: nat, more: nat)
    requires
        steps <= more,
        analyze_spec(c, steps) is Some,
    ensures
        analyze_spec(c, more) == analyze_spec(c, steps),
{
    if let FunctionBody::Defined(body) = c.function.body {
        more_steps_change_nothing(c, body, first_progress(body), steps, more);
    }
}

proof fn lemma_more_in_round(
    job: Job,
    summaries: Seq<Seq<ReturnSummaryView>>,
    n: nat,
    steps: nat,
    more: nat,
)
    requires
        steps <= more,
        job.round_spec(summaries, n, steps) is Some,
    ensures
        job.round_spec(summaries, n, more) == job.round_spec(summaries, n, steps),
    decreases n,
{
    if n > 0 && n <= job.functions.len() {
        lemma_more_in_round(job, summaries, (n - 1) as nat, steps, more);
        if job.kept[n - 1] {
            lemma_more_steps(job.ctx(n - 1, summaries, AnalysisMode::Summary), steps, more);
        }
    }
}

proof fn lemma_more_in_rounds(
    job: Job,
    summaries: Seq<Seq<ReturnSummaryView>>,
    rounds: nat,
    steps: nat,
    more: nat,
)
    requires
        steps <= more,
        job.rounds_spec(summaries, rounds, steps) is Some,
    ensures
        job.rounds_spec(summaries, rounds, more) == job.rounds_spec(summaries, rounds, steps),
    decreases rounds,
{
    if rounds > 0 {
        lemma_more_in_round(job, summaries, job.functions.len(), steps, more);
        let next = job.round_spec(summaries, job.functions.len(), steps)->0;
        if next != summaries {
            lemma_more_in_rounds(job, next, (rounds - 1) as nat, steps, more);
        }
    }
}

proof fn lemma_more_in_reports(
    job: Job,
    summaries: Seq<Seq<ReturnSummaryView>>,
    n: nat,
    steps: nat,
    more: nat,
)
    requires
        steps <= more,
        job.reports_spec(summaries, n, steps) is Some,
    ensures
        job.reports_spec(summaries, n, more) == job.reports_spec(summaries, n, steps),
    decreases n,
{
    if n > 0 && n <= job.functions.len() {
        lemma_more_in_reports(job, summaries, (n - 1) as nat, steps, more);
        if job.kept[n - 1] {
            lemma_more_steps(job.ctx(n - 1, summaries, AnalysisMode::Findings), steps, more);
        }
    }
}

/// The budget of steps decides only whether there are findings, not which.
pub proof fn findings_do_not_depend_on_the_budget(job: Job, steps: nat, more: nat)
    requires
        steps <= more,
        job.findings_spec(steps) is Some,
    ensures
        job.findings_spec(more) == job.findings_spec(steps),
{
    let nothing: Seq<Seq<ReturnSummaryView>> = Seq::new(
        job.functions.len(),
        |i: int| Seq::empty(),
    );
    lemma_more_in_rounds(job, nothing, 6, steps, more);
    let summaries = job.summaries_spec(steps)->0;
    lemma_more_in_reports(job, summaries, job.functions.len(), steps, more);
}

} // verus!
