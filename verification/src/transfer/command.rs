//! Commands: how they change a state, and what is reported on the way.

use crate::ast::{Command, CommandKind, Exp, LValue, Var, Visibility};
use crate::domain::index_set::IndexSet;
use crate::domain::risk::{PathFactView, SymbolicTerm, SymbolicTermView};
use crate::domain::state::{AbstractState, AbstractStateView};
use crate::domain::value::{single_interval, ValueState, ValueStateView};
use crate::model::{opt_view, views, Dup};
use crate::report::{SecurityFinding, SecurityFindingView, SinkKind};
use crate::transfer::context::{Ctx, FunctionAnalyzer};
use crate::transfer::describe::{borrow_field_name, field_path_spec};
use crate::transfer::emit::emit_value_spec;
use crate::transfer::eval::{eval_spec, first_or_top, first_or_top_spec};
use crate::transfer::formulas::{annotate_spec, annotate_value_with_name};
use vstd::prelude::*;

verus! {

/// The state after a value is put into a variable.
pub open spec fn assign_spec(
    c: Ctx,
    lvalue: LValue,
    value: ValueStateView,
    st: AbstractStateView,
) -> AbstractStateView {
    match lvalue {
        LValue::Var(var) => AbstractStateView {
            locals: st.locals.insert(
                var.index,
                annotate_spec(value, c.function.var_name_spec(var)),
            ),
            ..st
        },
        _ => st,
    }
}

/// The state after the first `n` targets got their values.
pub open spec fn assign_all_spec(
    c: Ctx,
    lvalues: Seq<LValue>,
    n: nat,
    values: Seq<ValueStateView>,
    st: AbstractStateView,
) -> AbstractStateView
    decreases n,
{
    if n == 0 || n > lvalues.len() {
        st
    } else {
        assign_spec(
            c,
            lvalues[n - 1],
            if n - 1 < values.len() {
                values[n - 1]
            } else {
                ValueStateView::top_spec()
            },
            assign_all_spec(c, lvalues, (n - 1) as nat, values, st),
        )
    }
}

/// The values returned so far, joined with those of one more return.
pub open spec fn record_spec(
    returned: Seq<ValueStateView>,
    values: Seq<ValueStateView>,
) -> Seq<ValueStateView> {
    Seq::new(
        if returned.len() >= values.len() {
            returned.len()
        } else {
            values.len()
        },
        |i: int|
            if i < returned.len() && i < values.len() {
                returned[i].join_spec(values[i])
            } else if i < returned.len() {
                returned[i]
            } else {
                values[i]
            },
    )
}

/// Whether the function can be called from outside its module.
pub open spec fn is_publicish_spec(c: Ctx) -> bool {
    c.function.visibility !is Internal || c.function.is_entry
}

/// Whether the function is an interface where values matter.
pub open spec fn is_value_api_spec(c: Ctx) -> bool {
    c.function.is_entry || c.function.parameters@.len() >= 2
}

/// What is said about a return as a sink.
pub open spec fn return_detail_spec(c: Ctx) -> Seq<char> {
    "returned from "@ + c.function.key.module.text@ + "::"@ + c.function.key.name@
}

/// What is reported when the first `n` values are returned.
pub open spec fn emit_returns_spec(
    c: Ctx,
    command: Command,
    values: Seq<ValueStateView>,
    n: nat,
    st: AbstractStateView,
) -> Seq<SecurityFindingView>
    decreases n,
{
    if n == 0 || n > values.len() {
        Seq::empty()
    } else {
        emit_returns_spec(c, command, values, (n - 1) as nat, st) + emit_value_spec(
            c,
            values[n - 1],
            command.loc,
            SinkKind::PublicReturn,
            is_value_api_spec(c),
            st,
            Some(return_detail_spec(c)),
        )
    }
}

/// What is reported when a value is written through a reference.
pub open spec fn emit_write_spec(
    c: Ctx,
    target: Exp,
    value: ValueStateView,
    st: AbstractStateView,
) -> Seq<SecurityFindingView> {
    match field_path_spec(target) {
        Some(path) => emit_value_spec(
            c,
            value,
            target.loc,
            SinkKind::FieldWrite,
            true,
            st,
            Some(path),
        ),
        None => Seq::empty(),
    }
}

/// What a command leaves: the state, the values returned so far, and what is reported.
pub struct Effect {
    pub state: AbstractStateView,
    pub returned: Seq<ValueStateView>,
    pub findings: Seq<SecurityFindingView>,
}

/// The effect of a command.
#[verifier::opaque]
pub open spec fn command_spec(
    c: Ctx,
    command: Command,
    st: AbstractStateView,
    returned: Seq<ValueStateView>,
) -> Effect {
    match command.value {
        CommandKind::Assign(lvalues, exp) => {
            let (values, found) = eval_spec(c, exp, st);
            Effect {
                state: assign_all_spec(c, lvalues@, lvalues@.len(), values, st),
                returned,
                findings: found,
            }
        },
        CommandKind::Mutate(target, value) => {
            let (values, found) = eval_spec(c, value, st);
            Effect {
                state: st,
                returned,
                findings: found + emit_write_spec(c, target, first_or_top_spec(values), st)
                    + eval_spec(c, target, st).1,
            }
        },
        CommandKind::Return(exp) => {
            let (values, found) = eval_spec(c, exp, st);
            Effect {
                state: st,
                returned: record_spec(returned, values),
                findings: if is_publicish_spec(c) {
                    found + emit_returns_spec(c, command, values, values.len(), st)
                } else {
                    found
                },
            }
        },
        CommandKind::Abort(exp) => Effect {
            state: st,
            returned,
            findings: eval_spec(c, exp, st).1,
        },
        CommandKind::IgnoreAndPop(exp) => Effect {
            state: st,
            returned,
            findings: eval_spec(c, exp, st).1,
        },
        CommandKind::JumpIf(cond, _, _) => Effect {
            state: st,
            returned,
            findings: eval_spec(c, cond, st).1,
        },
        CommandKind::Jump
        | CommandKind::VariantSwitch(_)
        | CommandKind::Break
        | CommandKind::Continue => Effect { state: st, returned, findings: Seq::empty() },
    }
}

/// The effect of the first `n` commands of a block, as far as the state stays reachable.
pub open spec fn commands_spec(
    c: Ctx,
    commands: Seq<Command>,
    n: nat,
    st: AbstractStateView,
    returned: Seq<ValueStateView>,
) -> Effect
    decreases n,
{
    if n == 0 || n > commands.len() {
        Effect { state: st, returned, findings: Seq::empty() }
    } else {
        let before = commands_spec(c, commands, (n - 1) as nat, st, returned);
        if before.state.unreachable {
            before
        } else {
            let after = command_spec(c, commands[n - 1], before.state, before.returned);
            Effect {
                state: after.state,
                returned: after.returned,
                findings: before.findings + after.findings,
            }
        }
    }
}

/// The value of a parameter at the start of its function.
pub open spec fn parameter_value_spec(c: Ctx, i: int) -> ValueStateView {
    let parameter = c.function.parameters@[i];
    annotate_spec(
        ValueStateView {
            term: SymbolicTermView::Var(parameter.var),
            parameter_dependencies: Set::empty().insert(i as usize),
            ..ValueStateView::of_single(parameter.ty)
        },
        c.function.var_name_spec(parameter.var),
    )
}

/// The values of the first `n` parameters.
pub open spec fn parameters_spec(c: Ctx, n: nat) -> Map<usize, ValueStateView>
    decreases n,
{
    if n == 0 || n > c.function.parameters@.len() {
        Map::empty()
    } else {
        parameters_spec(c, (n - 1) as nat).insert(
            c.function.parameters@[n - 1].var.index,
            parameter_value_spec(c, n - 1),
        )
    }
}

/// The state at the start of the function.
pub open spec fn initial_state_spec(c: Ctx) -> AbstractStateView {
    AbstractStateView {
        locals: parameters_spec(c, c.function.parameters@.len()),
        path_facts: Seq::empty(),
        unreachable: false,
    }
}

/// Joins the values of one more return with those returned so far.
pub fn record_returns(returned: &mut Vec<ValueState>, values: &Vec<ValueState>)
    ensures
        views(final(returned)@) == record_spec(views(old(returned)@), views(values@)),
{
    let ghost start = views(returned@);
    let ghost wanted = record_spec(start, views(values@));
    let mut i: usize = 0;
    while i < values.len()
        invariant
            i <= values@.len(),
            wanted == record_spec(start, views(values@)),
            returned@.len() == (if start.len() >= i {
                start.len()
            } else {
                i as nat
            }),
            forall|j: int| 0 <= j < i ==> views(returned@)[j] == wanted[j],
            forall|j: int| i <= j < start.len() ==> views(returned@)[j] == start[j],
        decreases values@.len() - i,
    {
        let ghost before = views(returned@);
        if i < returned.len() {
            let joined: ValueState = returned[i].join(&values[i]);
            returned.set(i, joined);
            assert(views(returned@) =~= before.update(i as int, joined@));
        } else {
            let value: ValueState = values[i].dup();
            returned.push(value);
            assert(views(returned@) =~= before.push(value@));
        }
        i = i + 1;
    }
    assert(views(returned@) =~= wanted);
}

impl<'a> FunctionAnalyzer<'a> {
    pub fn assign_lvalue(&self, lvalue: LValue, value: ValueState, state: &mut AbstractState)
        ensures
            final(state)@ == assign_spec(self@, lvalue, value@, old(state)@),
    {
        if let LValue::Var(var) = lvalue {
            let mut value: ValueState = value;
            let name: String = self.function.var_name(var);
            annotate_value_with_name(&mut value, &name);
            state.locals.insert(var.index, value);
        }
    }

    fn is_publicish(&self) -> (r: bool)
        ensures
            r == is_publicish_spec(self@),
    {
        self.function.visibility != Visibility::Internal || self.function.is_entry
    }

    fn is_value_api_surface(&self) -> (r: bool)
        ensures
            r == is_value_api_spec(self@),
    {
        self.function.is_entry || self.function.parameters.len() >= 2
    }

    fn emit_returns(
        &self,
        command: &Command,
        values: &Vec<ValueState>,
        state: &AbstractState,
        out: &mut Vec<SecurityFinding>,
    )
        ensures
            views(final(out)@) == views(old(out)@) + emit_returns_spec(
                self@,
                *command,
                views(values@),
                values@.len(),
                state@,
            ),
    {
        let ghost start = views(out@);
        let ghost all = views(values@);
        let mut text: String = "returned from ".to_owned();
        text.append(self.function.key.module.text.as_str());
        text.append("::");
        text.append(self.function.key.name.as_str());
        let detail: Option<String> = Some(text);
        let critical: bool = self.is_value_api_surface();
        let mut i: usize = 0;
        assert(start + emit_returns_spec(self@, *command, all, 0, state@) =~= start);
        while i < values.len()
            invariant
                i <= values@.len(),
                all == views(values@),
                critical == is_value_api_spec(self@),
                opt_view(detail) == Some(return_detail_spec(self@)),
                views(out@) == start + emit_returns_spec(self@, *command, all, i as nat, state@),
            decreases values@.len() - i,
        {
            self.emit_value(
                &values[i],
                command.loc,
                SinkKind::PublicReturn,
                critical,
                state,
                &detail,
                out,
            );
            i = i + 1;
            assert(views(out@) =~= start + emit_returns_spec(
                self@,
                *command,
                all,
                i as nat,
                state@,
            ));
        }
    }

    fn assign_all(&self, lvalues: &Vec<LValue>, values: &Vec<ValueState>, state: &mut AbstractState)
        ensures
            final(state)@ == assign_all_spec(
                self@,
                lvalues@,
                lvalues@.len(),
                views(values@),
                old(state)@,
            ),
    {
        let ghost start = state@;
        let mut i: usize = 0;
        while i < lvalues.len()
            invariant
                i <= lvalues@.len(),
                state@ == assign_all_spec(self@, lvalues@, i as nat, views(values@), start),
            decreases lvalues@.len() - i,
        {
            let value: ValueState = if i < values.len() {
                values[i].dup()
            } else {
                ValueState::top()
            };
            self.assign_lvalue(lvalues[i], value, state);
            i = i + 1;
        }
    }

    pub fn execute_command(
        &self,
        command: &Command,
        state: &mut AbstractState,
        returned: &mut Vec<ValueState>,
        out: &mut Vec<SecurityFinding>,
    )
        ensures
            ({
                let effect = command_spec(self@, *command, old(state)@, views(old(returned)@));
                &&& final(state)@ == effect.state
                &&& views(final(returned)@) == effect.returned
                &&& views(final(out)@) == views(old(out)@) + effect.findings
            }),
    {
        reveal(command_spec);
        let ghost start = views(out@);
        assert(start + Seq::<SecurityFindingView>::empty() =~= start);
        match &command.value {
            CommandKind::Assign(lvalues, exp) => {
                let values: Vec<ValueState> = self.eval_exp(exp, state, out);
                self.assign_all(lvalues, &values, state);
            },
            CommandKind::Mutate(target, value) => {
                let values: Vec<ValueState> = self.eval_exp(value, state, out);
                let rhs: ValueState = first_or_top(&values);
                if let Some((loc, path)) = borrow_field_name(target) {
                    let detail: Option<String> = Some(path);
                    self.emit_value(&rhs, loc, SinkKind::FieldWrite, true, state, &detail, out);
                }
                let ghost middle = views(out@);
                assert(middle =~= start + (eval_spec(self@, *value, state@).1 + emit_write_spec(
                    self@,
                    *target,
                    rhs@,
                    state@,
                )));
                let _ = self.eval_exp(target, state, out);
                assert(views(out@) =~= start + (eval_spec(self@, *value, state@).1
                    + emit_write_spec(self@, *target, rhs@, state@) + eval_spec(
                    self@,
                    *target,
                    state@,
                ).1));
            },
            CommandKind::Return(exp) => {
                let values: Vec<ValueState> = self.eval_exp(exp, state, out);
                record_returns(returned, &values);
                if self.is_publicish() {
                    self.emit_returns(command, &values, state, out);
                    assert(views(out@) =~= start + (eval_spec(self@, *exp, state@).1
                        + emit_returns_spec(
                        self@,
                        *command,
                        views(values@),
                        values@.len(),
                        state@,
                    )));
                }
            },
            CommandKind::Abort(exp) => {
                let _ = self.eval_exp(exp, state, out);
            },
            CommandKind::IgnoreAndPop(exp) => {
                let _ = self.eval_exp(exp, state, out);
            },
            CommandKind::JumpIf(cond, _, _) => {
                let _ = self.eval_exp(cond, state, out);
            },
            CommandKind::Jump
            | CommandKind::VariantSwitch(_)
            | CommandKind::Break
            | CommandKind::Continue => {},
        }
    }

    /// Runs the commands of a block.
    pub fn execute_block(
        &self,
        commands: &Vec<Command>,
        state: &mut AbstractState,
        returned: &mut Vec<ValueState>,
        out: &mut Vec<SecurityFinding>,
    )
        ensures
            ({
                let effect = commands_spec(
                    self@,
                    commands@,
                    commands@.len(),
                    old(state)@,
                    views(old(returned)@),
                );
                &&& final(state)@ == effect.state
                &&& views(final(returned)@) == effect.returned
                &&& views(final(out)@) == views(old(out)@) + effect.findings
            }),
    {
        let ghost first = state@;
        let ghost before = views(returned@);
        let ghost start = views(out@);
        let mut i: usize = 0;
        assert(start + Seq::<SecurityFindingView>::empty() =~= start);
        while i < commands.len()
            invariant
                i <= commands@.len(),
                state@ == commands_spec(self@, commands@, i as nat, first, before).state,
                views(returned@) == commands_spec(
                    self@,
                    commands@,
                    i as nat,
                    first,
                    before,
                ).returned,
                views(out@) == start + commands_spec(
                    self@,
                    commands@,
                    i as nat,
                    first,
                    before,
                ).findings,
            decreases commands@.len() - i,
        {
            if !state.unreachable {
                self.execute_command(&commands[i], state, returned, out);
            }
            i = i + 1;
            assert(views(out@) =~= start + commands_spec(
                self@,
                commands@,
                i as nat,
                first,
                before,
            ).findings);
        }
    }

    pub fn initial_state(&self) -> (r: AbstractState)
        ensures
            r@ == initial_state_spec(self@),
    {
        let mut state: AbstractState = AbstractState::new();
        let mut i: usize = 0;
        while i < self.function.parameters.len()
            invariant
                i <= self.function.parameters@.len(),
                state@.locals == parameters_spec(self@, i as nat),
                state@.path_facts == Seq::<PathFactView>::empty(),
                !state.unreachable,
            decreases self.function.parameters@.len() - i,
        {
            let var: Var = self.function.parameters[i].var;
            let mut value: ValueState = single_interval(&self.function.parameters[i].ty);
            value.term = SymbolicTerm::Var(var);
            let mut dependencies: IndexSet = IndexSet::new();
            dependencies.insert(i);
            value.parameter_dependencies = dependencies;
            let name: String = self.function.var_name(var);
            annotate_value_with_name(&mut value, &name);
            state.locals.insert(var.index, value);
            i = i + 1;
        }
        state
    }
}

} // verus!
