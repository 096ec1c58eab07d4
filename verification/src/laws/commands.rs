//! Commands: which values reach sinks, and what assignments leave.

use crate::ast::{Command, CommandKind, Exp, LValue, Loc, ModuleCall, UnannotatedExp, Var};
use crate::domain::risk::RiskOriginView;
use crate::domain::state::AbstractStateView;
use crate::domain::value::ValueStateView;
use crate::laws::reports::{each_risk_of_a_value_is_told, is_left_to_callers, tells_of};
use crate::report::{SecurityFindingView, SinkKind};
use crate::sinks::classify_call_sink_spec;
use crate::text::joined;
use crate::transfer::call::{call_findings_spec, emit_arguments_spec};
use crate::transfer::command::{
    assign_all_spec, command_spec, commands_spec, emit_returns_spec, initial_state_spec,
    parameter_value_spec, parameters_spec,
};
use crate::transfer::context::Ctx;
use crate::transfer::describe::field_path_spec;
use crate::transfer::emit::{emit_origins_spec, emit_value_spec};
use crate::transfer::eval::eval_spec;
use crate::transfer::formulas::annotate_spec;
use vstd::prelude::*;

verus! {

/// Whether one of the findings says that this risk reaches this sink.
pub open spec fn is_told(
    findings: Seq<SecurityFindingView>,
    origin: RiskOriginView,
    sink_loc: Loc,
    sink_kind: SinkKind,
    financial: bool,
    detail: Option<Seq<char>>,
) -> bool {
    exists|i: int|
        0 <= i < findings.len() && tells_of(
            #[trigger] findings[i],
            origin,
            sink_loc,
            sink_kind,
            financial,
            detail,
        )
}

pub proof fn lemma_told_in(
    a: Seq<SecurityFindingView>,
    b: Seq<SecurityFindingView>,
    origin: RiskOriginView,
    sink_loc: Loc,
    sink_kind: SinkKind,
    financial: bool,
    detail: Option<Seq<char>>,
)
    requires
        is_told(a, origin, sink_loc, sink_kind, financial, detail) || is_told(
            b,
            origin,
            sink_loc,
            sink_kind,
            financial,
            detail,
        ),
    ensures
        is_told(a + b, origin, sink_loc, sink_kind, financial, detail),
{
    if is_told(a, origin, sink_loc, sink_kind, financial, detail) {
        let i = choose|i: int|
            0 <= i < a.len() && tells_of(
                #[trigger] a[i],
                origin,
                sink_loc,
                sink_kind,
                financial,
                detail,
            );
        assert((a + b)[i] == a[i]);
    } else {
        let i = choose|i: int|
            0 <= i < b.len() && tells_of(
                #[trigger] b[i],
                origin,
                sink_loc,
                sink_kind,
                financial,
                detail,
            );
        assert((a + b)[a.len() + i] == b[i]);
    }
}

/// A value that reaches a sink tells of each of its risks there that is not left to callers.
pub proof fn values_at_sinks_tell_their_risks(
    c: Ctx,
    value: ValueStateView,
    j: int,
    sink_loc: Loc,
    sink_kind: SinkKind,
    financial: bool,
    st: AbstractStateView,
    detail: Option<Seq<char>>,
)
    requires
        c.mode is Findings,
        0 <= j < value.risky_origins.len(),
        !is_left_to_callers(value.risky_origins[j], sink_kind),
    ensures
        is_told(
            emit_value_spec(c, value, sink_loc, sink_kind, financial, st, detail),
            value.risky_origins[j],
            sink_loc,
            sink_kind,
            financial,
            detail,
        ),
{
    let origins = value.risky_origins;
    each_risk_of_a_value_is_told(
        c,
        origins,
        origins.len(),
        sink_loc,
        sink_kind,
        financial,
        st,
        detail,
    );
    assert(origins.take(origins.len() as int) =~= origins);
    let keep = |o: RiskOriginView| !is_left_to_callers(o, sink_kind);
    let told = origins.filter(keep);
    origins.lemma_filter_contains(keep, j);
    let m = choose|m: int| 0 <= m < told.len() && told[m] == origins[j];
    let part = emit_origins_spec(
        c,
        origins,
        origins.len(),
        sink_loc,
        sink_kind,
        financial,
        st,
        detail,
    );
    assert(tells_of(part[m], told[m], sink_loc, sink_kind, financial, detail));
    let all = emit_value_spec(c, value, sink_loc, sink_kind, financial, st, detail);
    assert(all[m] == part[m]);
}

/// Whether a function can be called from outside: it is not internal, or it is an entry.
pub open spec fn is_open_to_callers(c: Ctx) -> bool {
    !(c.function.visibility is Internal) || c.function.is_entry
}

/// Whether money is at stake in what a function returns: it is an entry, or takes two or more
/// parameters.
pub open spec fn returns_matter(c: Ctx) -> bool {
    c.function.is_entry || c.function.parameters@.len() > 1
}

proof fn lemma_returns(
    c: Ctx,
    command: Command,
    values: Seq<ValueStateView>,
    n: nat,
    st: AbstractStateView,
    i: int,
    j: int,
)
    requires
        c.mode is Findings,
        0 <= i < n <= values.len(),
        0 <= j < values[i].risky_origins.len(),
        !is_left_to_callers(values[i].risky_origins[j], SinkKind::PublicReturn),
    ensures
        is_told(
            emit_returns_spec(c, command, values, n, st),
            values[i].risky_origins[j],
            command.loc,
            SinkKind::PublicReturn,
            returns_matter(c),
            Some("returned from "@ + c.function.key.module.text@ + "::"@ + c.function.key.name@),
        ),
    decreases n,
{
    let detail = Some(
        "returned from "@ + c.function.key.module.text@ + "::"@ + c.function.key.name@,
    );
    let origin = values[i].risky_origins[j];
    let before = emit_returns_spec(c, command, values, (n - 1) as nat, st);
    let more = emit_value_spec(
        c,
        values[n - 1],
        command.loc,
        SinkKind::PublicReturn,
        returns_matter(c),
        st,
        detail,
    );
    if i < n - 1 {
        lemma_returns(c, command, values, (n - 1) as nat, st, i, j);
    } else {
        values_at_sinks_tell_their_risks(
            c,
            values[i],
            j,
            command.loc,
            SinkKind::PublicReturn,
            returns_matter(c),
            st,
            detail,
        );
    }
    lemma_told_in(
        before,
        more,
        origin,
        command.loc,
        SinkKind::PublicReturn,
        returns_matter(c),
        detail,
    );
}

/// A function that can be called from outside tells of the risks of the values that it returns; in
/// any other a return tells of nothing but what is found in the returned expression.
pub proof fn returns_tell_their_risks(
    c: Ctx,
    command: Command,
    exp: Exp,
    st: AbstractStateView,
    returned: Seq<ValueStateView>,
    i: int,
    j: int,
)
    requires
        c.mode is Findings,
        command.value == CommandKind::Return(exp),
        0 <= i < eval_spec(c, exp, st).0.len(),
        0 <= j < eval_spec(c, exp, st).0[i].risky_origins.len(),
    ensures
        ({
            let found = command_spec(c, command, st, returned).findings;
            let origin = eval_spec(c, exp, st).0[i].risky_origins[j];
            &&& is_open_to_callers(c) && !is_left_to_callers(origin, SinkKind::PublicReturn)
                ==> is_told(
                found,
                origin,
                command.loc,
                SinkKind::PublicReturn,
                returns_matter(c),
                Some("returned from "@ + c.function.key.module.text@ + "::"@ + c.function.key.name@),
            )
            &&& !is_open_to_callers(c) ==> found == eval_spec(c, exp, st).1
        }),
{
    reveal(command_spec);
    let (values, found) = eval_spec(c, exp, st);
    let origin = values[i].risky_origins[j];
    if is_open_to_callers(c) && !is_left_to_callers(origin, SinkKind::PublicReturn) {
        lemma_returns(c, command, values, values.len(), st, i, j);
        lemma_told_in(
            found,
            emit_returns_spec(c, command, values, values.len(), st),
            origin,
            command.loc,
            SinkKind::PublicReturn,
            returns_matter(c),
            Some("returned from "@ + c.function.key.module.text@ + "::"@ + c.function.key.name@),
        );
    }
}

/// Whether an expression borrows a field of a field, and so on, of something that is no field, from
/// the outermost field to the innermost.
pub open spec fn borrows(e: Exp, fields: Seq<Seq<char>>) -> bool
    decreases e,
{
    match e.value {
        UnannotatedExp::Borrow(inner, field) => {
            &&& fields.len() > 0
            &&& fields.last() == field@
            &&& if fields.len() == 1 {
                !(inner.value is Borrow)
            } else {
                borrows(*inner, fields.drop_last())
            }
        },
        _ => false,
    }
}

/// A field is written with the fields that it lies in, in order, with dots between them; what is no
/// field has no such path.
pub proof fn fields_are_written_with_dots(e: Exp, fields: Seq<Seq<char>>)
    ensures
        borrows(e, fields) ==> field_path_spec(e) == Some(joined(fields, "."@)),
        !(e.value is Borrow) ==> field_path_spec(e) is None,
    decreases e,
{
    if let UnannotatedExp::Borrow(inner, field) = e.value {
        if borrows(e, fields) {
            fields_are_written_with_dots(*inner, fields.drop_last());
        }
    }
}

/// A value that is written to a field tells of its risks there, as where money is at stake.
pub proof fn field_writes_tell_their_risks(
    c: Ctx,
    command: Command,
    target: Exp,
    written: Exp,
    st: AbstractStateView,
    returned: Seq<ValueStateView>,
    fields: Seq<Seq<char>>,
    j: int,
)
    requires
        c.mode is Findings,
        command.value == CommandKind::Mutate(target, written),
        borrows(target, fields),
        eval_spec(c, written, st).0.len() > 0,
        0 <= j < eval_spec(c, written, st).0[0].risky_origins.len(),
    ensures
        is_told(
            command_spec(c, command, st, returned).findings,
            eval_spec(c, written, st).0[0].risky_origins[j],
            target.loc,
            SinkKind::FieldWrite,
            true,
            Some(joined(fields, "."@)),
        ),
        command_spec(c, command, st, returned).state == st,
{
    reveal(command_spec);
    let path = joined(fields, "."@);
    fields_are_written_with_dots(target, fields);
    let (values, found) = eval_spec(c, written, st);
    let told = emit_value_spec(
        c,
        values[0],
        target.loc,
        SinkKind::FieldWrite,
        true,
        st,
        Some(path),
    );
    let origin = values[0].risky_origins[j];
    values_at_sinks_tell_their_risks(
        c,
        values[0],
        j,
        target.loc,
        SinkKind::FieldWrite,
        true,
        st,
        Some(path),
    );
    lemma_told_in(found, told, origin, target.loc, SinkKind::FieldWrite, true, Some(path));
    lemma_told_in(
        found + told,
        eval_spec(c, target, st).1,
        origin,
        target.loc,
        SinkKind::FieldWrite,
        true,
        Some(path),
    );
}

/// Whether a call goes to a function of the framework that moves, shares or freezes objects, or
/// takes or gives amounts of coins.
pub open spec fn moves_money(call: ModuleCall) -> bool {
    let module = call.callee.module.name@;
    let name = call.callee.name@;
    call.callee.module.address@ == 2 && (module == "transfer"@ && (name == "transfer"@ || name
        == "public_transfer"@ || name == "share_object"@ || name == "public_share_object"@ || name
        == "freeze_object"@ || name == "public_freeze_object"@ || name == "receive"@ || name
        == "public_receive"@) || module == "coin"@ && (name == "transfer"@ || name == "split"@
        || name == "split_and_transfer"@ || name == "take"@ || name == "put"@ || name == "join"@))
}

proof fn lemma_arguments(
    c: Ctx,
    call: ModuleCall,
    exp: Exp,
    arguments: Seq<ValueStateView>,
    n: nat,
    st: AbstractStateView,
    i: int,
    j: int,
)
    requires
        c.mode is Findings,
        classify_call_sink_spec(call, c.summary_of(call.callee) is Some) is Some,
        0 <= i < n <= arguments.len(),
        0 <= j < arguments[i].risky_origins.len(),
    ensures
        ({
            let sink = classify_call_sink_spec(call, c.summary_of(call.callee) is Some)->0;
            is_told(
                emit_arguments_spec(c, call, sink, exp, arguments, n, st),
                arguments[i].risky_origins[j],
                exp.loc,
                SinkKind::CallArgument,
                sink is KnownAssetMovementApi,
                Some(
                    call.callee.module.text@ + "::"@ + call.callee.name@ + " ["@
                        + sink.label_spec() + "]"@,
                ),
            )
        }),
    decreases n,
{
    let sink = classify_call_sink_spec(call, c.summary_of(call.callee) is Some)->0;
    let detail = Some(
        call.callee.module.text@ + "::"@ + call.callee.name@ + " ["@ + sink.label_spec() + "]"@,
    );
    let origin = arguments[i].risky_origins[j];
    let critical = sink is KnownAssetMovementApi;
    let before = emit_arguments_spec(c, call, sink, exp, arguments, (n - 1) as nat, st);
    let more = emit_value_spec(
        c,
        arguments[n - 1],
        exp.loc,
        SinkKind::CallArgument,
        critical,
        st,
        detail,
    );
    if i < n - 1 {
        lemma_arguments(c, call, exp, arguments, (n - 1) as nat, st, i, j);
    } else {
        values_at_sinks_tell_their_risks(
            c,
            arguments[i],
            j,
            exp.loc,
            SinkKind::CallArgument,
            critical,
            st,
            detail,
        );
    }
    lemma_told_in(before, more, origin, exp.loc, SinkKind::CallArgument, critical, detail);
}

/// The arguments of a call tell of their risks where the call moves money, which is what makes them
/// grave, and where it leaves the functions that are analyzed. A call to an analyzed function tells
/// of nothing.
pub proof fn arguments_tell_their_risks(
    c: Ctx,
    call: ModuleCall,
    exp: Exp,
    arguments: Seq<ValueStateView>,
    st: AbstractStateView,
    i: int,
    j: int,
)
    requires
        c.mode is Findings,
        0 <= i < arguments.len(),
        0 <= j < arguments[i].risky_origins.len(),
    ensures
        ({
            let found = call_findings_spec(c, call, exp, arguments, st);
            let callee = call.callee.module.text@ + "::"@ + call.callee.name@ + " ["@;
            let known = c.summary_of(call.callee) is Some;
            &&& moves_money(call) ==> is_told(
                found,
                arguments[i].risky_origins[j],
                exp.loc,
                SinkKind::CallArgument,
                true,
                Some(callee + "known-asset-movement-api"@ + "]"@),
            )
            &&& !moves_money(call) && !known ==> is_told(
                found,
                arguments[i].risky_origins[j],
                exp.loc,
                SinkKind::CallArgument,
                false,
                Some(callee + "external-boundary-call"@ + "]"@),
            )
            &&& !moves_money(call) && known ==> found.len() == 0
        }),
{
    reveal(call_findings_spec);
    if classify_call_sink_spec(call, c.summary_of(call.callee) is Some) is Some {
        lemma_arguments(c, call, exp, arguments, arguments.len(), st, i, j);
    }
}

/// Whether the target at this place is the last one that is this variable.
pub open spec fn is_last_target(lvalues: Seq<LValue>, n: nat, i: int, var: Var) -> bool {
    &&& 0 <= i < n <= lvalues.len()
    &&& lvalues[i] == LValue::Var(var)
    &&& forall|k: int|
        i < k < n ==> !((#[trigger] lvalues[k]) is Var && lvalues[k]->Var_0.index == var.index)
}

proof fn lemma_assigned(
    c: Ctx,
    lvalues: Seq<LValue>,
    n: nat,
    values: Seq<ValueStateView>,
    st: AbstractStateView,
    i: int,
    var: Var,
    other: usize,
)
    requires
        n <= lvalues.len(),
        forall|k: int|
            0 <= k < n ==> !((#[trigger] lvalues[k]) is Var && lvalues[k]->Var_0.index == other),
    ensures
        ({
            let after = assign_all_spec(c, lvalues, n, values, st);
            &&& after.path_facts == st.path_facts
            &&& after.unreachable == st.unreachable
            &&& after.locals.contains_key(other) <==> st.locals.contains_key(other)
            &&& st.locals.contains_key(other) ==> after.locals[other] == st.locals[other]
            &&& is_last_target(lvalues, n, i, var) ==> after.locals.contains_key(var.index)
                && after.locals[var.index] == annotate_spec(
                if i < values.len() {
                    values[i]
                } else {
                    ValueStateView::top_spec()
                },
                c.function.var_name_spec(var),
            )
        }),
    decreases n,
{
    if n > 0 {
        lemma_assigned(c, lvalues, (n - 1) as nat, values, st, i, var, other);
        if is_last_target(lvalues, n, i, var) && i < n - 1 {
            assert(is_last_target(lvalues, (n - 1) as nat, i, var));
        }
    }
}

/// An assignment puts each value into the variable at its place, under the name of the variable,
/// and leaves every other variable, and what is known of the path, as it was.
pub proof fn assignments_change_their_targets_only(
    c: Ctx,
    command: Command,
    lvalues: Vec<LValue>,
    exp: Exp,
    st: AbstractStateView,
    returned: Seq<ValueStateView>,
    i: int,
    var: Var,
    other: usize,
)
    requires
        command.value == CommandKind::Assign(lvalues, exp),
        forall|k: int|
            0 <= k < lvalues@.len() ==> !((#[trigger] lvalues@[k]) is Var
                && lvalues@[k]->Var_0.index == other),
    ensures
        ({
            let after = command_spec(c, command, st, returned);
            let values = eval_spec(c, exp, st).0;
            &&& after.returned == returned
            &&& after.findings == eval_spec(c, exp, st).1
            &&& after.state.path_facts == st.path_facts
            &&& after.state.unreachable == st.unreachable
            &&& after.state.locals.contains_key(other) <==> st.locals.contains_key(other)
            &&& st.locals.contains_key(other) ==> after.state.locals[other] == st.locals[other]
            &&& is_last_target(lvalues@, lvalues@.len(), i, var) && i < values.len()
                ==> after.state.locals.contains_key(var.index)
                && after.state.locals[var.index].interval == values[i].interval
                && after.state.locals[var.index].bit_facts == values[i].bit_facts
                && after.state.locals[var.index].term == values[i].term
                && after.state.locals[var.index].risky_origins == values[i].risky_origins
                && after.state.locals[var.index].parameter_dependencies
                == values[i].parameter_dependencies && after.state.locals[var.index]
                == annotate_spec(values[i], c.function.var_name_spec(var))
        }),
{
    reveal(command_spec);
    let values = eval_spec(c, exp, st).0;
    lemma_assigned(c, lvalues@, lvalues@.len(), values, st, i, var, other);
}

/// Any other command leaves the variables as they were; one that returns adds the returned values to
/// those that were returned before, place by place; and what is found in an expression of a command
/// is told.
pub proof fn other_commands_keep_the_variables(
    c: Ctx,
    command: Command,
    st: AbstractStateView,
    returned: Seq<ValueStateView>,
)
    requires
        !(command.value is Assign),
    ensures
        ({
            let after = command_spec(c, command, st, returned);
            &&& after.state == st
            &&& !(command.value is Return) ==> after.returned == returned
            &&& match command.value {
                CommandKind::Abort(e)
                | CommandKind::IgnoreAndPop(e)
                | CommandKind::JumpIf(e, _, _) => after.findings == eval_spec(c, e, st).1,
                CommandKind::Jump
                | CommandKind::VariantSwitch(_)
                | CommandKind::Break
                | CommandKind::Continue => after.findings.len() == 0,
                CommandKind::Mutate(target, value) => !(target.value is Borrow)
                    ==> after.findings == eval_spec(c, value, st).1 + eval_spec(c, target, st).1,
                CommandKind::Return(e) => {
                    let values = eval_spec(c, e, st).0;
                    let all = after.returned;
                    &&& all.len() >= returned.len() && all.len() >= values.len()
                    &&& all.len() == returned.len() || all.len() == values.len()
                    &&& forall|k: int|
                        0 <= k < returned.len() && k < values.len() ==> #[trigger] all[k]
                            == returned[k].join_spec(values[k])
                    &&& forall|k: int|
                        values.len() <= k < returned.len() ==> #[trigger] all[k] == returned[k]
                    &&& forall|k: int|
                        returned.len() <= k < values.len() ==> #[trigger] all[k] == values[k]
                },
                _ => true,
            }
        }),
{
    reveal(command_spec);
    if let CommandKind::Mutate(target, value) = command.value {
        fields_are_written_with_dots(target, Seq::empty());
        let found = eval_spec(c, value, st).1;
        assert(found + Seq::<SecurityFindingView>::empty() =~= found);
    }
}

/// A block runs its commands one after the other, each in what the one before left, until the path
/// is closed; what each of them tells is kept in order.
pub proof fn blocks_run_their_commands_in_order(
    c: Ctx,
    commands: Seq<Command>,
    n: nat,
    st: AbstractStateView,
    returned: Seq<ValueStateView>,
)
    requires
        n < commands.len(),
    ensures
        ({
            let before = commands_spec(c, commands, n, st, returned);
            let after = commands_spec(c, commands, n + 1, st, returned);
            let next = command_spec(c, commands[n as int], before.state, before.returned);
            &&& !before.state.unreachable ==> after.state == next.state && after.returned
                == next.returned && after.findings == before.findings + next.findings
            &&& before.state.unreachable ==> after == before
            &&& commands_spec(c, commands, 0, st, returned).state == st
            &&& commands_spec(c, commands, 0, st, returned).findings.len() == 0
        }),
{
}

/// A function starts with its parameters, each an arbitrary value of its type that depends on that
/// parameter alone, and with nothing known of the path.
pub proof fn functions_start_with_their_parameters(c: Ctx, i: int, j: int)
    requires
        0 <= i < c.function.parameters@.len(),
        forall|k: int|
            i < k < c.function.parameters@.len() ==> (
            #[trigger] c.function.parameters@[k]).var.index
                != c.function.parameters@[i].var.index,
    ensures
        ({
            let st = initial_state_spec(c);
            let parameter = c.function.parameters@[i];
            let value = st.locals[parameter.var.index];
            &&& st.path_facts.len() == 0
            &&& !st.unreachable
            &&& st.locals.contains_key(parameter.var.index)
            &&& value.parameter_dependencies == set![i as usize]
            &&& value.interval == ValueStateView::of_single(parameter.ty).interval
            &&& value.bit_facts == ValueStateView::of_single(parameter.ty).bit_facts
            &&& value.risky_origins.len() == 0
            &&& value.term is Var && value.term->Var_0 == parameter.var
            &&& value.formula_facts is Some
        }),
{
    lemma_parameters(c, c.function.parameters@.len(), i);
    assert(Set::empty().insert(i as usize) =~= set![i as usize]);
}

proof fn lemma_parameters(c: Ctx, n: nat, i: int)
    requires
        0 <= i < n <= c.function.parameters@.len(),
        forall|k: int|
            i < k < n ==> (#[trigger] c.function.parameters@[k]).var.index
                != c.function.parameters@[i].var.index,
    ensures
        parameters_spec(c, n).contains_key(c.function.parameters@[i].var.index),
        parameters_spec(c, n)[c.function.parameters@[i].var.index]
            == parameter_value_spec(c, i),
    decreases n,
{
    if i < n - 1 {
        lemma_parameters(c, (n - 1) as nat, i);
        assert(c.function.parameters@[n - 1].var.index != c.function.parameters@[i].var.index);
    }
}

} // verus!
