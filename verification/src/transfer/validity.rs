//! Sound values: their known bits are those of an integer type, and the keys of their risks are
//! those of the kinds.

use crate::ast::{BinOp, Body, Command, CommandKind, Exp, LValue, ModuleCall, Type, UnannotatedExp};
use crate::domain::state::AbstractStateView;
use crate::domain::value::ValueStateView;
use crate::domain::widths::{is_width, type_width_spec};
use crate::summaries::ReturnSummaryView;
use crate::transfer::binop::{
    arithmetic_spec, binop_value_spec, bitwise_spec, merged_spec, raw_result_spec,
};
use crate::transfer::call::{
    call_values_spec, default_returns_spec, return_value_spec, return_values_spec,
};
use crate::transfer::command::{assign_all_spec, command_spec, commands_spec, parameters_spec};
use crate::transfer::constraints::{
    apply_all_spec, apply_constraint_spec, collect_constraints_spec, ConstraintView,
};
use crate::transfer::context::Ctx;
use crate::transfer::engine::{block_in_spec, merged_in_spec, refine_edge_spec};
use crate::transfer::eval::{cast_value_spec, eval_each_spec, eval_spec, first_or_top_spec};
use crate::transfer::risks::{
    coherent, coherent_state, coherent_summaries, lemma_eval_coherent, lemma_join_coherent,
};
use vstd::prelude::*;

verus! {

/// Whether all values are valid.
pub open spec fn all_valid(values: Seq<ValueStateView>) -> bool {
    forall|i: int| 0 <= i < values.len() ==> (#[trigger] values[i]).valid()
}

/// Whether the value of every variable is valid.
pub open spec fn valid_state(st: AbstractStateView) -> bool {
    forall|k: usize| #[trigger] st.locals.contains_key(k) ==> st.locals[k].valid()
}

proof fn lemma_type_valid(ty: Type)
    ensures
        ValueStateView::of_type(ty).valid(),
        type_width_spec(ty) is Some ==> is_width(type_width_spec(ty)->0),
{
}

proof fn lemma_join_valid(a: ValueStateView, b: ValueStateView)
    requires
        a.valid(),
        b.valid(),
    ensures
        a.join_spec(b).valid(),
{
}

proof fn lemma_binop_valid(
    c: Ctx,
    exp: Exp,
    lhs_exp: Exp,
    lhs: ValueStateView,
    op: BinOp,
    rhs_exp: Exp,
    rhs: ValueStateView,
    st: AbstractStateView,
)
    requires
        lhs.valid(),
        rhs.valid(),
    ensures
        binop_value_spec(c, exp, lhs_exp, lhs, op, rhs_exp, rhs, st).valid(),
{
    reveal(binop_value_spec);
    reveal(raw_result_spec);
    reveal(merged_spec);
    lemma_join_valid(lhs, rhs);
    lemma_type_valid(exp.ty);
    assert(merged_spec(c, exp, lhs, rhs).valid());
    match op {
        BinOp::Add
        | BinOp::Sub
        | BinOp::Mul
        | BinOp::Div
        | BinOp::Mod => {
            assert(arithmetic_spec(c, exp, lhs, op, rhs_exp, rhs, st).valid());
        },
        BinOp::BitAnd | BinOp::BitOr | BinOp::Xor => {
            assert(bitwise_spec(c, exp, lhs_exp, lhs, op, rhs, st).valid());
        },
        _ => {},
    }
}

proof fn lemma_call_valid(
    c: Ctx,
    call: ModuleCall,
    exp: Exp,
    arguments: Seq<ValueStateView>,
    st: AbstractStateView,
)
    ensures
        all_valid(call_values_spec(c, call, exp, arguments, st)),
{
    let defaults = default_returns_spec(exp.ty);
    lemma_type_valid(exp.ty);
    assert(all_valid(defaults)) by {
        if let Type::Multiple(types) = exp.ty {
            assert forall|i: int| 0 <= i < defaults.len() implies (#[trigger] defaults[i]).valid() by {
                assert(defaults[i] == ValueStateView::of_single(types@[i]));
            }
        }
    }
    if let Some(summary) = c.summary_of(call.callee) {
        lemma_returns_like_defaults(c, call, exp, arguments, summary, summary.len(), st);
    }
}

/// The values that a call returns have the ranges and bits of their types.
pub proof fn lemma_returns_like_defaults(
    c: Ctx,
    call: ModuleCall,
    exp: Exp,
    arguments: Seq<ValueStateView>,
    summary: Seq<ReturnSummaryView>,
    n: nat,
    st: AbstractStateView,
)
    requires
        n <= summary.len(),
    ensures
        return_values_spec(c, call, exp, arguments, summary, n, st).len() == n,
        forall|i: int|
            0 <= i < n ==> {
                let value = #[trigger] return_values_spec(
                    c,
                    call,
                    exp,
                    arguments,
                    summary,
                    n,
                    st,
                )[i];
                let base = if i < default_returns_spec(exp.ty).len() {
                    default_returns_spec(exp.ty)[i]
                } else {
                    ValueStateView::top_spec()
                };
                value.interval == base.interval && value.bit_facts == base.bit_facts
            },
    decreases n,
{
    if n > 0 {
        lemma_returns_like_defaults(c, call, exp, arguments, summary, (n - 1) as nat, st);
        reveal(return_value_spec);
    }
}

/// The values of an expression are valid.
pub proof fn lemma_eval_valid(c: Ctx, e: Exp, st: AbstractStateView)
    requires
        valid_state(st),
    ensures
        all_valid(eval_spec(c, e, st).0),
    decreases e, 0nat,
{
    match e.value {
        UnannotatedExp::Move(var) | UnannotatedExp::Copy(var) | UnannotatedExp::BorrowLocal(var) => {
            if st.locals.contains_key(var.index) {
                assert(st.locals[var.index].valid());
            }
        },
        UnannotatedExp::Freeze(inner)
        | UnannotatedExp::Dereference(inner)
        | UnannotatedExp::Borrow(inner, _) => lemma_eval_valid(c, *inner, st),
        UnannotatedExp::Multiple(values) => lemma_eval_each_valid(c, values@, values@.len(), st),
        UnannotatedExp::ModuleCall(call) => {
            let arguments = eval_each_spec(c, call.arguments@, call.arguments@.len(), st).0;
            lemma_call_valid(c, *call, e, arguments, st);
        },
        UnannotatedExp::Cast(inner, builtin) => {
            lemma_eval_valid(c, *inner, st);
            reveal(cast_value_spec);
            let value = first_or_top_spec(eval_spec(c, *inner, st).0);
            assert(value.valid());
        },
        UnannotatedExp::BinopExp(lhs, op, rhs) => {
            lemma_eval_valid(c, *lhs, st);
            lemma_eval_valid(c, *rhs, st);
            lemma_binop_valid(
                c,
                e,
                *lhs,
                first_or_top_spec(eval_spec(c, *lhs, st).0),
                op,
                *rhs,
                first_or_top_spec(eval_spec(c, *rhs, st).0),
                st,
            );
        },
        _ => {},
    }
}

pub proof fn lemma_eval_each_valid(c: Ctx, es: Seq<Exp>, n: nat, st: AbstractStateView)
    requires
        valid_state(st),
        n <= es.len(),
    ensures
        all_valid(eval_each_spec(c, es, n, st).0),
        eval_each_spec(c, es, n, st).0.len() == n,
        forall|i: int|
            0 <= i < n ==> #[trigger] eval_each_spec(c, es, n, st).0[i] == first_or_top_spec(
                eval_spec(c, es[i], st).0,
            ),
    decreases es, n,
{
    if n > 0 {
        lemma_eval_each_valid(c, es, (n - 1) as nat, st);
        assert(decreases_to!(es => es[n - 1]));
        lemma_eval_valid(c, es[n - 1], st);
    }
}

/// Whether a value is valid, and its risks are coherent where those that functions return are.
pub open spec fn sound_value(c: Ctx, value: ValueStateView) -> bool {
    value.valid() && (coherent_summaries(c.summaries) ==> coherent(value.risky_origins))
}

pub open spec fn all_sound(c: Ctx, values: Seq<ValueStateView>) -> bool {
    forall|i: int| 0 <= i < values.len() ==> sound_value(c, #[trigger] values[i])
}

/// Whether the value of every variable is sound.
pub open spec fn sound_state(c: Ctx, st: AbstractStateView) -> bool {
    forall|k: usize| #[trigger] st.locals.contains_key(k) ==> sound_value(c, st.locals[k])
}

pub proof fn lemma_sound_state(c: Ctx, st: AbstractStateView)
    requires
        sound_state(c, st),
    ensures
        valid_state(st),
        coherent_summaries(c.summaries) ==> coherent_state(st),
{
    assert forall|k: usize| #[trigger] st.locals.contains_key(k) implies st.locals[k].valid() && (
    coherent_summaries(c.summaries) ==> coherent(st.locals[k].risky_origins)) by {
        assert(sound_value(c, st.locals[k]));
    }
}

pub proof fn lemma_join_sound(c: Ctx, a: ValueStateView, b: ValueStateView)
    requires
        sound_value(c, a),
        sound_value(c, b),
    ensures
        sound_value(c, a.join_spec(b)),
{
    lemma_join_valid(a, b);
    if coherent_summaries(c.summaries) {
        lemma_join_coherent(a, b);
    }
}

/// The values of an expression are sound.
pub proof fn lemma_eval_sound(c: Ctx, e: Exp, st: AbstractStateView)
    requires
        sound_state(c, st),
    ensures
        all_sound(c, eval_spec(c, e, st).0),
{
    lemma_sound_state(c, st);
    lemma_eval_valid(c, e, st);
    if coherent_summaries(c.summaries) {
        lemma_eval_coherent(c, e, st);
    }
}

proof fn lemma_assign_sound(
    c: Ctx,
    lvalues: Seq<LValue>,
    n: nat,
    values: Seq<ValueStateView>,
    st: AbstractStateView,
)
    requires
        sound_state(c, st),
        all_sound(c, values),
    ensures
        sound_state(c, assign_all_spec(c, lvalues, n, values, st)),
        assign_all_spec(c, lvalues, n, values, st).unreachable == st.unreachable,
    decreases n,
{
    if n > 0 && n <= lvalues.len() {
        lemma_assign_sound(c, lvalues, (n - 1) as nat, values, st);
    }
}

pub proof fn lemma_commands_sound(
    c: Ctx,
    commands: Seq<Command>,
    n: nat,
    st: AbstractStateView,
    returned: Seq<ValueStateView>,
)
    requires
        sound_state(c, st),
    ensures
        sound_state(c, commands_spec(c, commands, n, st, returned).state),
        commands_spec(c, commands, n, st, returned).state.unreachable == st.unreachable,
    decreases n,
{
    if n > 0 && n <= commands.len() {
        lemma_commands_sound(c, commands, (n - 1) as nat, st, returned);
        let before = commands_spec(c, commands, (n - 1) as nat, st, returned);
        reveal(command_spec);
        if let CommandKind::Assign(lvalues, exp) = commands[n - 1].value {
            lemma_eval_sound(c, exp, before.state);
            lemma_assign_sound(
                c,
                lvalues@,
                lvalues@.len(),
                eval_spec(c, exp, before.state).0,
                before.state,
            );
        }
    }
}

proof fn lemma_constraints_sound(
    c: Ctx,
    ks: Seq<ConstraintView>,
    n: nat,
    st: AbstractStateView,
)
    requires
        sound_state(c, st),
    ensures
        sound_state(c, apply_all_spec(c, ks, n, st)),
    decreases n,
{
    if n > 0 && n <= ks.len() {
        lemma_constraints_sound(c, ks, (n - 1) as nat, st);
        let before = apply_all_spec(c, ks, (n - 1) as nat, st);
        let k = ks[n - 1];
        let value = c.lookup(before, k.var);
        assert(sound_value(c, value)) by {
            if before.locals.contains_key(k.var.index) {
                assert(sound_value(c, before.locals[k.var.index]));
            }
        }
        let next = apply_constraint_spec(c, k, before);
        assert forall|i: usize| #[trigger] next.locals.contains_key(i) implies sound_value(c, next.locals[i]) by {
            if i != k.var.index {
                assert(before.locals.contains_key(i));
            }
        }
    }
}

pub proof fn lemma_edge_sound(c: Ctx, body: Body, from: usize, to: usize, st: AbstractStateView)
    requires
        sound_state(c, st),
    ensures
        sound_state(c, refine_edge_spec(c, body, from, to, st)),
{
    if from < body.blocks@.len() && body.blocks@[from as int].commands@.len() > 0 {
        if let CommandKind::JumpIf(cond, if_true, if_false) =
            body.blocks@[from as int].commands@.last().value {
            let t = collect_constraints_spec(c, cond, true, st);
            let f = collect_constraints_spec(c, cond, false, st);
            if t is Some {
                lemma_constraints_sound(c, t->0, t->0.len(), st);
            }
            if f is Some {
                lemma_constraints_sound(c, f->0, f->0.len(), st);
            }
        }
    }
}

pub proof fn lemma_join_states_sound(c: Ctx, a: AbstractStateView, b: AbstractStateView)
    requires
        sound_state(c, a),
        sound_state(c, b),
    ensures
        sound_state(c, a.join_spec(b)),
{
    let j = a.join_spec(b);
    assert forall|k: usize| #[trigger] j.locals.contains_key(k) implies sound_value(c, j.locals[k]) by {
        if !a.unreachable && !b.unreachable {
            assert(a.locals.contains_key(k) || b.locals.contains_key(k));
            if a.locals.contains_key(k) && b.locals.contains_key(k) {
                lemma_join_sound(c, a.locals[k], b.locals[k]);
            }
        }
    }
}

/// Whether the states after all blocks that were run are sound.
pub open spec fn sound_after(c: Ctx, after: Seq<Option<AbstractStateView>>) -> bool {
    forall|l: int| 0 <= l < after.len() && #[trigger] after[l] is Some ==> sound_state(c, after[l]->0)
}

proof fn lemma_parameters_sound(c: Ctx, n: nat)
    ensures
        forall|k: usize| #[trigger]
            parameters_spec(c, n).contains_key(k) ==> sound_value(c, parameters_spec(c, n)[k]),
    decreases n,
{
    if n > 0 && n <= c.function.parameters@.len() {
        lemma_parameters_sound(c, (n - 1) as nat);
        let before = parameters_spec(c, (n - 1) as nat);
        let now = parameters_spec(c, n);
        assert forall|k: usize| #[trigger] now.contains_key(k) implies sound_value(c, now[k]) by {
            if k != c.function.parameters@[n - 1].var.index {
                assert(before.contains_key(k));
            }
        }
    }
}

pub proof fn lemma_merged_sound(
    c: Ctx,
    body: Body,
    label: usize,
    n: nat,
    after: Seq<Option<AbstractStateView>>,
)
    requires
        sound_after(c, after),
    ensures
        merged_in_spec(c, body, label, n, after) is Some ==> sound_state(c, 
            merged_in_spec(c, body, label, n, after)->0,
        ),
    decreases n,
{
    let predecessors = body.blocks@[label as int].predecessors@;
    if n > 0 && n <= predecessors.len() {
        lemma_merged_sound(c, body, label, (n - 1) as nat, after);
        let p = predecessors[n - 1];
        if p < after.len() && after[p as int] is Some {
            lemma_edge_sound(c, body, p, label, after[p as int]->0);
            let refined = refine_edge_spec(c, body, p, label, after[p as int]->0);
            if let Some(existing) = merged_in_spec(c, body, label, (n - 1) as nat, after) {
                lemma_join_states_sound(c, existing, refined);
            }
        }
    }
}

/// The state at the start of a block is sound where those after its predecessors are.
pub proof fn lemma_entry_sound(
    c: Ctx,
    body: Body,
    label: usize,
    after: Seq<Option<AbstractStateView>>,
)
    requires
        sound_after(c, after),
    ensures
        sound_state(c, block_in_spec(c, body, label, after)),
{
    lemma_merged_sound(c, body, label, body.blocks@[label as int].predecessors@.len(), after);
    lemma_parameters_sound(c, c.function.parameters@.len());
}

} // verus!
