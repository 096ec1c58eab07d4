//! Bits that shifts lose: how values carry the losses that went into them, along all runs.

use crate::ast::{
    BinOp, Body, BuiltinTypeName, Command, CommandKind, Exp, LValue, Loc, UnannotatedExp,
};
use crate::domain::risk::{origin_key_spec, RiskKind, RiskOriginView};
use crate::domain::state::AbstractStateView;
use crate::domain::value::ValueStateView;
use crate::domain::widths::{type_width_spec, uint_max_spec};
use crate::transfer::binop::binop_value_spec;
use crate::transfer::command::{assign_all_spec, command_spec, commands_spec};
use crate::transfer::constraints::{
    apply_all_spec, apply_constraint_spec, collect_constraints_spec, ConstraintView,
};
use crate::transfer::context::Ctx;
use crate::transfer::engine::{
    block_in_spec, first_progress, merged_in_spec, refine_edge_spec, run_spec,
};
use crate::transfer::eval::{eval_spec, first_or_top_spec};
use crate::transfer::fixpoint::{
    agree_before, entry_states, finished_states_are_a_fixed_point, is_settled, leaves,
    neighbours_agree,
};
use crate::transfer::risks::{
    carries, carries_truncation, coherent, coherent_summaries, joins_carry_both_risks, lemma_cast,
    lossy_shifts_carry_a_risk, results_carry_the_risks_of_operands, truncating_shifts_carry_a_risk,
};
use crate::transfer::runs::{
    can_go_on, every_run_is_followed, is_concluded_rightly, is_read_rightly, is_run, is_visit,
    lemma_edge_follows, state_before, Visit,
};
use crate::transfer::semantics::{number_of, result_of};
use crate::transfer::soundness::{expressions_admit_their_numbers, tracks};
use crate::transfer::validity::{
    lemma_commands_sound, lemma_entry_sound, lemma_eval_each_valid, lemma_eval_sound,
    lemma_sound_state, sound_after, sound_state, sound_value,
};
use crate::u256::U256;
use vstd::arithmetic::power2::pow2;
use vstd::prelude::*;

verus! {

/// Bits lost at a shift: at the top of a left shift, or at the bottom of a right shift.
pub struct Loss {
    pub left: bool,
    pub at: Loc,
}

/// Whether a value carries the risk of a loss.
pub open spec fn loss_is_carried(origins: Seq<RiskOriginView>, loss: Loss) -> bool {
    if loss.left {
        carries_truncation(origins, loss.at)
    } else {
        carries(origins, origin_key_spec(RiskKind::ReachableLossyRightShift, loss.at))
    }
}

/// Whether these operands of a shift lose bits.
pub open spec fn loses_bits(op: BinOp, width: u16, x: U256, y: U256) -> bool {
    if op is Shl {
        x@ * pow2(y@) > uint_max_spec(width)@
    } else {
        op is Shr && x@ % pow2(y@) != 0
    }
}

/// The losses that went into the value of an expression, given the numbers in the variables and
/// the losses that went into those.
pub open spec fn losses_of(
    e: Exp,
    values: Map<usize, U256>,
    losses: Map<usize, Set<Loss>>,
) -> Set<Loss>
    decreases e,
{
    match e.value {
        UnannotatedExp::Move(var) | UnannotatedExp::Copy(var) => if losses.contains_key(var.index) {
            losses[var.index]
        } else {
            Set::empty()
        },
        UnannotatedExp::Cast(inner, _) => losses_of(*inner, values, losses),
        UnannotatedExp::BinopExp(lhs, op, rhs) => {
            let operands = losses_of(*lhs, values, losses).union(losses_of(*rhs, values, losses));
            match (number_of(*lhs, values), number_of(*rhs, values), type_width_spec(e.ty)) {
                (Some(x), Some(y), Some(width)) => if result_of(op, Some(width), x, y) is Some
                    && loses_bits(op, width, x, y) {
                    operands.insert(Loss { left: op is Shl, at: e.loc })
                } else {
                    operands
                },
                _ => operands,
            }
        },
        _ => Set::empty(),
    }
}

/// Whether the counts of the shifts at one place in an expression are known.
pub open spec fn counts_are_known(c: Ctx, e: Exp, st: AbstractStateView, at: Loc) -> bool
    decreases e,
{
    match e.value {
        UnannotatedExp::Cast(inner, _) => counts_are_known(c, *inner, st, at),
        UnannotatedExp::BinopExp(lhs, op, rhs) => {
            &&& counts_are_known(c, *lhs, st, at)
            &&& counts_are_known(c, *rhs, st, at)
            &&& (op is Shl || op is Shr) && e.loc == at ==> first_or_top_spec(
                eval_spec(c, *rhs, st).0,
            ).exact_value_spec() is Some
        },
        _ => true,
    }
}

/// Whether a state carries a loss in all variables that it went into.
pub open spec fn carries_loss(
    st: AbstractStateView,
    losses: Map<usize, Set<Loss>>,
    loss: Loss,
) -> bool {
    forall|k: usize|
        #![trigger losses[k].contains(loss)]
        losses.contains_key(k) && losses[k].contains(loss) ==> st.locals.contains_key(k)
            && loss_is_carried(st.locals[k].risky_origins, loss)
}

proof fn lemma_first_sound(c: Ctx, e: Exp, st: AbstractStateView)
    requires
        sound_state(c, st),
        coherent_summaries(c.summaries),
    ensures
        first_or_top_spec(eval_spec(c, e, st).0).valid(),
        coherent(first_or_top_spec(eval_spec(c, e, st).0).risky_origins),
{
    lemma_eval_sound(c, e, st);
    let values = eval_spec(c, e, st).0;
    if values.len() > 0 {
        assert(sound_value(c, values[0]));
    }
}

proof fn lemma_binop_keeps_loss(
    c: Ctx,
    e: Exp,
    lhs_exp: Exp,
    lhs: ValueStateView,
    op: BinOp,
    rhs_exp: Exp,
    rhs: ValueStateView,
    st: AbstractStateView,
    loss: Loss,
)
    requires
        coherent(lhs.risky_origins),
        coherent(rhs.risky_origins),
        loss_is_carried(lhs.risky_origins, loss) || loss_is_carried(rhs.risky_origins, loss),
    ensures
        loss_is_carried(
            binop_value_spec(
                c,
                e,
                lhs_exp,
                lhs,
                op,
                rhs_exp,
                rhs,
                st,
            ).risky_origins,
            loss,
        ),
{
    results_carry_the_risks_of_operands(
        c,
        e,
        lhs_exp,
        lhs,
        op,
        rhs_exp,
        rhs,
        st,
        RiskKind::ReachableShiftTruncation,
        loss.at,
    );
    results_carry_the_risks_of_operands(
        c,
        e,
        lhs_exp,
        lhs,
        op,
        rhs_exp,
        rhs,
        st,
        RiskKind::FakeCheckedShift,
        loss.at,
    );
    results_carry_the_risks_of_operands(
        c,
        e,
        lhs_exp,
        lhs,
        op,
        rhs_exp,
        rhs,
        st,
        RiskKind::ReachableLossyRightShift,
        loss.at,
    );
}

/// A loss that went into the value of an expression is carried by its abstract value. Left out are
/// losses in shifts by amounts that are not known.
pub proof fn losses_are_carried(
    c: Ctx,
    e: Exp,
    st: AbstractStateView,
    values: Map<usize, U256>,
    losses: Map<usize, Set<Loss>>,
    loss: Loss,
)
    requires
        coherent_summaries(c.summaries),
        sound_state(c, st),
        tracks(st, values),
        carries_loss(st, losses, loss),
        counts_are_known(c, e, st, loss.at),
        losses_of(e, values, losses).contains(loss),
    ensures
        loss_is_carried(first_or_top_spec(eval_spec(c, e, st).0).risky_origins, loss),
    decreases e,
{
    match e.value {
        UnannotatedExp::Move(var) | UnannotatedExp::Copy(var) => {
            assert(losses[var.index].contains(loss));
        },
        UnannotatedExp::Cast(inner, builtin) => {
            losses_are_carried(c, *inner, st, values, losses, loss);
            lemma_first_sound(c, *inner, st);
            lemma_cast_keeps_loss(c, e, *inner, builtin, st, loss);
        },
        UnannotatedExp::BinopExp(lhs, op, rhs) => {
            let left = first_or_top_spec(eval_spec(c, *lhs, st).0);
            let right = first_or_top_spec(eval_spec(c, *rhs, st).0);
            lemma_first_sound(c, *lhs, st);
            lemma_first_sound(c, *rhs, st);
            if losses_of(*lhs, values, losses).contains(loss) {
                losses_are_carried(c, *lhs, st, values, losses, loss);
                lemma_binop_keeps_loss(c, e, *lhs, left, op, *rhs, right, st, loss);
            } else if losses_of(*rhs, values, losses).contains(loss) {
                losses_are_carried(c, *rhs, st, values, losses, loss);
                lemma_binop_keeps_loss(c, e, *lhs, left, op, *rhs, right, st, loss);
            } else {
                let x = number_of(*lhs, values)->0;
                let y = number_of(*rhs, values)->0;
                expressions_admit_their_numbers(c, *lhs, st, values);
                expressions_admit_their_numbers(c, *rhs, st, values);
                if op is Shl {
                    truncating_shifts_carry_a_risk(c, e, *lhs, left, *rhs, right, st, x, y);
                } else {
                    lossy_shifts_carry_a_risk(c, e, *lhs, left, *rhs, right, st, x, y);
                }
            }
        },
        _ => {},
    }
}

proof fn lemma_cast_keeps_loss(
    c: Ctx,
    e: Exp,
    inner: Exp,
    builtin: BuiltinTypeName,
    st: AbstractStateView,
    loss: Loss,
)
    requires
        e.value == UnannotatedExp::Cast(Box::new(inner), builtin),
        coherent(first_or_top_spec(eval_spec(c, inner, st).0).risky_origins),
        loss_is_carried(first_or_top_spec(eval_spec(c, inner, st).0).risky_origins, loss),
    ensures
        loss_is_carried(first_or_top_spec(eval_spec(c, e, st).0).risky_origins, loss),
{
    let value = first_or_top_spec(eval_spec(c, inner, st).0);
    lemma_cast(
        c,
        e,
        inner,
        value,
        builtin,
        st,
        RiskKind::ReachableShiftTruncation,
        loss.at,
    );
    lemma_cast(
        c,
        e,
        inner,
        value,
        builtin,
        st,
        RiskKind::FakeCheckedShift,
        loss.at,
    );
    lemma_cast(
        c,
        e,
        inner,
        value,
        builtin,
        st,
        RiskKind::ReachableLossyRightShift,
        loss.at,
    );
}

/// The losses that went into the `i`th value of an expression.
pub open spec fn component_losses(
    e: Exp,
    i: int,
    values: Map<usize, U256>,
    losses: Map<usize, Set<Loss>>,
) -> Set<Loss> {
    match e.value {
        UnannotatedExp::Multiple(es) => if 0 <= i < es@.len() {
            losses_of(es@[i], values, losses)
        } else {
            Set::empty()
        },
        _ => if i == 0 {
            losses_of(e, values, losses)
        } else {
            Set::empty()
        },
    }
}

/// Whether the counts of the shifts at one place in all values of an expression are known.
pub open spec fn all_counts_known(c: Ctx, e: Exp, st: AbstractStateView, at: Loc) -> bool {
    match e.value {
        UnannotatedExp::Multiple(es) => forall|i: int|
            0 <= i < es@.len() ==> counts_are_known(c, #[trigger] es@[i], st, at),
        _ => counts_are_known(c, e, st, at),
    }
}

pub proof fn lemma_component_carried(
    c: Ctx,
    e: Exp,
    i: int,
    st: AbstractStateView,
    values: Map<usize, U256>,
    losses: Map<usize, Set<Loss>>,
    loss: Loss,
)
    requires
        coherent_summaries(c.summaries),
        sound_state(c, st),
        tracks(st, values),
        carries_loss(st, losses, loss),
        all_counts_known(c, e, st, loss.at),
        component_losses(e, i, values, losses).contains(loss),
    ensures
        i < eval_spec(c, e, st).0.len(),
        loss_is_carried(eval_spec(c, e, st).0[i].risky_origins, loss),
{
    match e.value {
        UnannotatedExp::Multiple(es) => {
            lemma_sound_state(c, st);
            lemma_eval_each_valid(c, es@, es@.len(), st);
            assert(counts_are_known(c, es@[i], st, loss.at));
            losses_are_carried(c, es@[i], st, values, losses, loss);
            assert(eval_spec(c, e, st).0[i] == first_or_top_spec(eval_spec(c, es@[i], st).0));
        },
        _ => {
            losses_are_carried(c, e, st, values, losses, loss);
        },
    }
}

/// The losses in the variables after the first `n` targets got their values.
pub open spec fn assign_losses(
    lvalues: Seq<LValue>,
    n: nat,
    e: Exp,
    values: Map<usize, U256>,
    losses: Map<usize, Set<Loss>>,
) -> Map<usize, Set<Loss>>
    decreases n,
{
    if n == 0 || n > lvalues.len() {
        losses
    } else {
        let before = assign_losses(lvalues, (n - 1) as nat, e, values, losses);
        match lvalues[n - 1] {
            LValue::Var(var) => before.insert(
                var.index,
                component_losses(e, n - 1, values, losses),
            ),
            _ => before,
        }
    }
}

/// The losses in the variables after the first `j` commands of a block.
pub open spec fn losses_before(
    commands: Seq<Command>,
    values: Seq<Map<usize, U256>>,
    j: nat,
    losses: Map<usize, Set<Loss>>,
) -> Map<usize, Set<Loss>>
    decreases j,
{
    if j == 0 || j > commands.len() {
        losses
    } else {
        let before = losses_before(commands, values, (j - 1) as nat, losses);
        match commands[j - 1].value {
            CommandKind::Assign(lvalues, e) => assign_losses(
                lvalues@,
                lvalues@.len(),
                e,
                values[j - 1],
                before,
            ),
            _ => before,
        }
    }
}

/// The losses in the variables at the start of the `i`th block of a run.
pub open spec fn losses_at(body: Body, run: Seq<Visit>, i: nat) -> Map<usize, Set<Loss>>
    decreases i,
{
    if i == 0 || i > run.len() {
        Map::empty()
    } else {
        let visit = run[i - 1];
        let commands = body.blocks@[visit.label as int].commands@;
        losses_before(
            commands,
            visit.values,
            commands.len(),
            losses_at(body, run, (i - 1) as nat),
        )
    }
}

/// Whether the counts of the shifts at one place that a run comes by, in assignments and returns,
/// are known.
pub open spec fn run_counts_known(
    c: Ctx,
    body: Body,
    entered: Seq<Option<AbstractStateView>>,
    run: Seq<Visit>,
    at: Loc,
) -> bool {
    forall|i: int, j: int|
        #![trigger run[i].values[j]]
        0 <= i < run.len() && 0 <= j < body.blocks@[run[i].label as int].commands@.len() ==> match body.blocks@[
        run[i].label as int].commands@[j].value {
            CommandKind::Assign(_, e) | CommandKind::Return(e) => all_counts_known(
                c,
                e,
                state_before(
                    c,
                    body,
                    run[i].label as int,
                    entered[run[i].label as int]->0,
                    j as nat,
                ),
                at,
            ),
            _ => true,
        }
}

proof fn lemma_assign_carries(
    c: Ctx,
    e: Exp,
    lvalues: Seq<LValue>,
    n: nat,
    st: AbstractStateView,
    values: Map<usize, U256>,
    losses: Map<usize, Set<Loss>>,
    loss: Loss,
)
    requires
        coherent_summaries(c.summaries),
        sound_state(c, st),
        tracks(st, values),
        carries_loss(st, losses, loss),
        all_counts_known(c, e, st, loss.at),
        n <= lvalues.len(),
    ensures
        carries_loss(
            assign_all_spec(c, lvalues, n, eval_spec(c, e, st).0, st),
            assign_losses(lvalues, n, e, values, losses),
            loss,
        ),
    decreases n,
{
    if n > 0 {
        lemma_assign_carries(c, e, lvalues, (n - 1) as nat, st, values, losses, loss);
        let before = assign_all_spec(c, lvalues, (n - 1) as nat, eval_spec(c, e, st).0, st);
        let was = assign_losses(lvalues, (n - 1) as nat, e, values, losses);
        let next = assign_all_spec(c, lvalues, n, eval_spec(c, e, st).0, st);
        let now = assign_losses(lvalues, n, e, values, losses);
        assert forall|k: usize|
            #![trigger now[k].contains(loss)]
            now.contains_key(k) && now[k].contains(loss) implies next.locals.contains_key(k)
            && loss_is_carried(next.locals[k].risky_origins, loss) by {
            match lvalues[n - 1] {
                LValue::Var(var) => {
                    if k == var.index {
                        lemma_component_carried(c, e, n - 1, st, values, losses, loss);
                    } else {
                        assert(was[k].contains(loss));
                    }
                },
                _ => {
                    assert(was[k].contains(loss));
                },
            }
        }
    }
}

proof fn lemma_commands_carry(
    c: Ctx,
    commands: Seq<Command>,
    entry: AbstractStateView,
    values: Seq<Map<usize, U256>>,
    j: nat,
    losses: Map<usize, Set<Loss>>,
    loss: Loss,
)
    requires
        coherent_summaries(c.summaries),
        sound_state(c, entry),
        carries_loss(entry, losses, loss),
        j <= commands.len(),
        !entry.unreachable,
        forall|k: int|
            #![trigger values[k]]
            0 <= k < j ==> {
                let st = commands_spec(c, commands, k as nat, entry, Seq::empty()).state;
                tracks(st, values[k]) && match commands[k].value {
                    CommandKind::Assign(_, e) => all_counts_known(c, e, st, loss.at),
                    _ => true,
                }
            },
    ensures
        carries_loss(
            commands_spec(c, commands, j, entry, Seq::empty()).state,
            losses_before(commands, values, j, losses),
            loss,
        ),
    decreases j,
{
    if j > 0 {
        lemma_commands_carry(c, commands, entry, values, (j - 1) as nat, losses, loss);
        lemma_commands_sound(c, commands, (j - 1) as nat, entry, Seq::empty());
        let before = commands_spec(c, commands, (j - 1) as nat, entry, Seq::empty());
        assert(tracks(before.state, values[j - 1]));
        reveal(command_spec);
        if let CommandKind::Assign(lvalues, e) = commands[j - 1].value {
            lemma_assign_carries(
                c,
                e,
                lvalues@,
                lvalues@.len(),
                before.state,
                values[j - 1],
                losses_before(commands, values, (j - 1) as nat, losses),
                loss,
            );
        }
    }
}

proof fn lemma_constraints_carry(
    c: Ctx,
    ks: Seq<ConstraintView>,
    n: nat,
    st: AbstractStateView,
    losses: Map<usize, Set<Loss>>,
    loss: Loss,
)
    requires
        carries_loss(st, losses, loss),
    ensures
        carries_loss(apply_all_spec(c, ks, n, st), losses, loss),
    decreases n,
{
    if n > 0 && n <= ks.len() {
        lemma_constraints_carry(c, ks, (n - 1) as nat, st, losses, loss);
        let before = apply_all_spec(c, ks, (n - 1) as nat, st);
        let k = ks[n - 1];
        let next = apply_constraint_spec(c, k, before);
        assert forall|i: usize|
            #![trigger losses[i].contains(loss)]
            losses.contains_key(i) && losses[i].contains(loss) implies next.locals.contains_key(i)
            && loss_is_carried(next.locals[i].risky_origins, loss) by {
            if i == k.var.index {
                assert(c.lookup(before, k.var) == before.locals[i]);
            }
        }
    }
}

proof fn lemma_edge_carries(
    c: Ctx,
    body: Body,
    from: usize,
    to: usize,
    st: AbstractStateView,
    losses: Map<usize, Set<Loss>>,
    loss: Loss,
)
    requires
        carries_loss(st, losses, loss),
    ensures
        carries_loss(refine_edge_spec(c, body, from, to, st), losses, loss),
{
    if from < body.blocks@.len() && body.blocks@[from as int].commands@.len() > 0 {
        if let CommandKind::JumpIf(cond, _, _) =
            body.blocks@[from as int].commands@.last().value {
            let t = collect_constraints_spec(c, cond, true, st);
            let f = collect_constraints_spec(c, cond, false, st);
            if t is Some {
                lemma_constraints_carry(c, t->0, t->0.len(), st, losses, loss);
            }
            if f is Some {
                lemma_constraints_carry(c, f->0, f->0.len(), st, losses, loss);
            }
        }
    }
}

proof fn lemma_join_carries(
    a: AbstractStateView,
    b: AbstractStateView,
    losses: Map<usize, Set<Loss>>,
    loss: Loss,
)
    requires
        (!a.unreachable && carries_loss(a, losses, loss)) || (!b.unreachable && carries_loss(
            b,
            losses,
            loss,
        )),
    ensures
        carries_loss(a.join_spec(b), losses, loss),
        !a.join_spec(b).unreachable,
{
    let j = a.join_spec(b);
    if !a.unreachable && !b.unreachable {
        assert forall|k: usize|
            #![trigger losses[k].contains(loss)]
            losses.contains_key(k) && losses[k].contains(loss) implies j.locals.contains_key(k)
            && loss_is_carried(j.locals[k].risky_origins, loss) by {
            if a.locals.contains_key(k) && b.locals.contains_key(k) {
                lemma_value_join_carries(a.locals[k], b.locals[k], loss);
            }
        }
    }
}

proof fn lemma_value_join_carries(a: ValueStateView, b: ValueStateView, loss: Loss)
    requires
        loss_is_carried(a.risky_origins, loss) || loss_is_carried(b.risky_origins, loss),
    ensures
        loss_is_carried(a.join_spec(b).risky_origins, loss),
{
    let t = origin_key_spec(RiskKind::ReachableShiftTruncation, loss.at);
    let f = origin_key_spec(RiskKind::FakeCheckedShift, loss.at);
    let l = origin_key_spec(RiskKind::ReachableLossyRightShift, loss.at);
    if carries(a.risky_origins, t) || carries(b.risky_origins, t) {
        joins_carry_both_risks(a, b, t);
    }
    if carries(a.risky_origins, f) || carries(b.risky_origins, f) {
        joins_carry_both_risks(a, b, f);
    }
    if carries(a.risky_origins, l) || carries(b.risky_origins, l) {
        joins_carry_both_risks(a, b, l);
    }
}

proof fn lemma_merge_carries(
    c: Ctx,
    body: Body,
    label: usize,
    n: nat,
    seen: Seq<Option<AbstractStateView>>,
    at: int,
    losses: Map<usize, Set<Loss>>,
    loss: Loss,
)
    requires
        0 <= at < n <= body.blocks@[label as int].predecessors@.len(),
        ({
            let from = body.blocks@[label as int].predecessors@[at];
            from < seen.len() && seen[from as int] is Some && !refine_edge_spec(
                c,
                body,
                from,
                label,
                seen[from as int]->0,
            ).unreachable && carries_loss(
                refine_edge_spec(c, body, from, label, seen[from as int]->0),
                losses,
                loss,
            )
        }),
    ensures
        merged_in_spec(c, body, label, n, seen) is Some,
        carries_loss(merged_in_spec(c, body, label, n, seen)->0, losses, loss),
        !merged_in_spec(c, body, label, n, seen)->0.unreachable,
    decreases n,
{
    let p = body.blocks@[label as int].predecessors@[n - 1];
    if at < n - 1 {
        lemma_merge_carries(c, body, label, (n - 1) as nat, seen, at, losses, loss);
    }
    if p < seen.len() && seen[p as int] is Some {
        let refined = refine_edge_spec(c, body, p, label, seen[p as int]->0);
        if let Some(existing) = merged_in_spec(c, body, label, (n - 1) as nat, seen) {
            lemma_join_carries(existing, refined, losses, loss);
        }
    }
}

/// Every value carries, before each command and at the end of each block that is run, each loss
/// that went into it. Left out are losses in shifts by amounts that are not known, and runs that the
/// analysis does not read rightly.
pub proof fn every_run_carries_its_losses(
    c: Ctx,
    body: Body,
    steps: nat,
    run: Seq<Visit>,
    i: int,
    j: nat,
    loss: Loss,
)
    requires
        coherent_summaries(c.summaries),
        neighbours_agree(body),
        body.start < body.blocks@.len(),
        run_spec(c, body, first_progress(body), steps) is Some,
        is_run(c, body, run_spec(c, body, first_progress(body), steps)->0.after, run),
        is_read_rightly(
            c,
            body,
            run_spec(c, body, first_progress(body), steps)->0.after,
            entry_states(c, body, steps),
            run,
        ),
        run_counts_known(c, body, entry_states(c, body, steps), run, loss.at),
        0 <= i < run.len(),
        j <= body.blocks@[run[i].label as int].commands@.len(),
    ensures
        carries_loss(
            state_before(
                c,
                body,
                run[i].label as int,
                entry_states(c, body, steps)[run[i].label as int]->0,
                j,
            ),
            losses_before(
                body.blocks@[run[i].label as int].commands@,
                run[i].values,
                j,
                losses_at(body, run, i as nat),
            ),
            loss,
        ),
    decreases i,
{
    let after = run_spec(c, body, first_progress(body), steps)->0.after;
    let entered = entry_states(c, body, steps);
    let visit = run[i];
    let l = visit.label as int;
    let commands = body.blocks@[l].commands@;
    let entry = entered[l]->0;
    let losses = losses_at(body, run, i as nat);
    finished_states_are_a_fixed_point(c, body, steps);
    every_run_is_followed(c, body, steps, run, i);
    assert(is_visit(body, visit));
    assert(is_settled(c, body, l, entry, after));
    let seen = choose|seen: Seq<Option<AbstractStateView>>| #[trigger]
        agree_before(body, l, seen, after) && sound_after(c, seen) && entry == block_in_spec(
            c,
            body,
            l as usize,
            seen,
        );
    lemma_entry_sound(c, body, l as usize, seen);
    assert(tracks(state_before(c, body, l, entry, 0), visit.values[0]));
    if i > 0 {
        let f = run[i - 1].label as int;
        every_run_carries_its_losses(
            c,
            body,
            steps,
            run,
            i - 1,
            body.blocks@[f].commands@.len(),
            loss,
        );
        lemma_entry_carries(c, body, steps, run, i, losses, loss);
    }
    assert(carries_loss(entry, losses, loss));
    assert forall|k: int| #![trigger visit.values[k]] 0 <= k < j implies {
        let st = commands_spec(c, commands, k as nat, entry, Seq::empty()).state;
        tracks(st, visit.values[k]) && match commands[k].value {
            CommandKind::Assign(_, e) => all_counts_known(c, e, st, loss.at),
            _ => true,
        }
    } by {
        assert(tracks(state_before(c, body, l, entry, k as nat), run[i].values[k]));
    }
    lemma_commands_carry(c, commands, entry, visit.values, j, losses, loss);
}

/// From the end of one block of a run to the start of the next.
proof fn lemma_entry_carries(
    c: Ctx,
    body: Body,
    steps: nat,
    run: Seq<Visit>,
    i: int,
    losses: Map<usize, Set<Loss>>,
    loss: Loss,
)
    requires
        neighbours_agree(body),
        body.start < body.blocks@.len(),
        run_spec(c, body, first_progress(body), steps) is Some,
        is_run(c, body, run_spec(c, body, first_progress(body), steps)->0.after, run),
        is_read_rightly(
            c,
            body,
            run_spec(c, body, first_progress(body), steps)->0.after,
            entry_states(c, body, steps),
            run,
        ),
        0 < i < run.len(),
        ({
            let f = run[i - 1].label as int;
            carries_loss(
                state_before(
                    c,
                    body,
                    f,
                    entry_states(c, body, steps)[f]->0,
                    body.blocks@[f].commands@.len(),
                ),
                losses,
                loss,
            )
        }),
    ensures
        carries_loss(entry_states(c, body, steps)[run[i].label as int]->0, losses, loss),
{
    let after = run_spec(c, body, first_progress(body), steps)->0.after;
    let entered = entry_states(c, body, steps);
    finished_states_are_a_fixed_point(c, body, steps);
    every_run_is_followed(c, body, steps, run, i - 1);
    every_run_is_followed(c, body, steps, run, i);
    let from = run[i - 1];
    let to = run[i];
    let f = from.label as int;
    let l = to.label as int;
    assert(is_visit(body, from));
    assert(is_visit(body, to));
    assert(run[(i - 1) + 1] == to);
    assert(can_go_on(c, body, after[f]->0, from, to.label));
    assert(is_concluded_rightly(c, body, after[f]->0, from));
    assert(after[f]->0 == leaves(c, body, f, entered[f]->0));
    assert(tracks(state_before(c, body, f, entered[f]->0, 0), from.values[0]));
    assert(carries_loss(after[f]->0, losses, loss));
    lemma_edge_follows(c, body, after[f]->0, from, to.label);
    lemma_edge_carries(c, body, from.label, to.label, after[f]->0, losses, loss);
    assert(is_settled(c, body, l, entered[l]->0, after));
    let seen = choose|seen: Seq<Option<AbstractStateView>>| #[trigger]
        agree_before(body, l, seen, after) && sound_after(c, seen) && entered[l]->0 == block_in_spec(
            c,
            body,
            l as usize,
            seen,
        );
    let predecessors = body.blocks@[l].predecessors@;
    assert(predecessors.contains(from.label));
    let at = choose|at: int| 0 <= at < predecessors.len() && predecessors[at] == from.label;
    assert(body.blocks@[l].predecessors@[at] == from.label);
    assert(seen[f] == after[f]);
    lemma_merge_carries(c, body, to.label, predecessors.len(), seen, at, losses, loss);
}

} // verus!
