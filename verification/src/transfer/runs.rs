//! What the analysis says of the runs of a function.

use crate::ast::{Body, Command, CommandKind, Exp, LValue, Type, UnannotatedExp};
use crate::domain::bit_facts::{unknown_admits_what_fits, BitFacts};
use crate::domain::interval::Interval;
use crate::domain::state::AbstractStateView;
use crate::domain::value::{join_admits_both, refining_is_exact, ValueStateView};
use crate::domain::widths::{is_width, single_width_spec, uint_max_spec};
use crate::transfer::call::default_returns_spec;
use crate::transfer::command::{
    assign_all_spec, command_spec, commands_spec, initial_state_spec, parameters_spec,
};
use crate::transfer::constraint_laws::{
    can_come_out, constants_are_right, narrowed_state_follows_the_path,
};
use crate::transfer::constraints::{collect_constraints_spec, or_empty};
use crate::transfer::context::Ctx;
use crate::transfer::engine::{
    block_in_spec, first_progress, merged_in_spec, refine_edge_spec, run_spec,
};
use crate::transfer::eval::{eval_each_spec, eval_spec, first_or_top_spec};
use crate::transfer::fixpoint::{
    agree_before, entry_states, finished_states_are_a_fixed_point, is_settled, leaves,
    neighbours_agree,
};
use crate::transfer::semantics::{fits, number_of};
use crate::transfer::soundness::{expressions_admit_their_numbers, tracks};
use crate::transfer::validity::{
    lemma_commands_sound, lemma_edge_sound, lemma_entry_sound, lemma_eval_each_valid,
    lemma_merged_sound, lemma_returns_like_defaults, lemma_sound_state, sound_after, sound_state,
    valid_state,
};
use crate::u256::U256;
use vstd::prelude::*;

verus! {

/// The width of the `i`th of the types that an expression gives values of.
pub open spec fn component_width(ty: Type, i: int) -> Option<u16> {
    match ty {
        Type::Single(single) => if i == 0 {
            single_width_spec(single)
        } else {
            None
        },
        Type::Multiple(types) => if 0 <= i < types@.len() {
            single_width_spec(types@[i])
        } else {
            None
        },
        Type::Unit => None,
    }
}

/// Whether these can be the values of an expression, given the numbers in the variables. A value
/// that is no number, or is not followed, is none. What is called, or lies in a constant, can
/// give any number of its type.
pub open spec fn can_give(
    e: Exp,
    values: Map<usize, U256>,
    results: Seq<Option<U256>>,
) -> bool {
    forall|i: int|
        0 <= i < results.len() && #[trigger] results[i] is Some ==> match e.value {
            UnannotatedExp::ModuleCall(_)
            | UnannotatedExp::Constant(_)
            | UnannotatedExp::Vector(_, _)
            | UnannotatedExp::Pack(_, _)
            | UnannotatedExp::PackVariant(_, _) => component_width(e.ty, i) is Some && fits(
                component_width(e.ty, i)->0,
                results[i]->0,
            ),
            UnannotatedExp::Multiple(es) => i < es@.len() && number_of(es@[i], values)
                == results[i],
            _ => i == 0 && number_of(e, values) == results[i],
        }
}

/// The numbers in the variables after the first `n` targets got their values. A variable that gets
/// none is no longer followed.
pub open spec fn assign_numbers(
    lvalues: Seq<LValue>,
    n: nat,
    results: Seq<Option<U256>>,
    values: Map<usize, U256>,
) -> Map<usize, U256>
    decreases n,
{
    if n == 0 || n > lvalues.len() {
        values
    } else {
        let before = assign_numbers(lvalues, (n - 1) as nat, results, values);
        match lvalues[n - 1] {
            LValue::Var(var) => if n - 1 < results.len() && results[n - 1] is Some {
                before.insert(var.index, results[n - 1]->0)
            } else {
                before.remove(var.index)
            },
            _ => before,
        }
    }
}

/// Whether a command can take the numbers in the variables from the one to the other. Variables
/// that are written through a reference are no longer followed.
pub open spec fn can_lead(
    command: Command,
    from: Map<usize, U256>,
    to: Map<usize, U256>,
) -> bool {
    match command.value {
        CommandKind::Assign(lvalues, exp) => exists|results: Seq<Option<U256>>| #[trigger]
            can_give(exp, from, results) && to.submap_of(
                assign_numbers(lvalues@, lvalues@.len(), results, from),
            ),
        _ => to.submap_of(from),
    }
}

/// The run of a block: its label, and the numbers in the variables before each command and after
/// the last.
pub struct Visit {
    pub label: usize,
    pub values: Seq<Map<usize, U256>>,
}

/// The state of the analysis before the `j`th command of a block.
pub open spec fn state_before(
    c: Ctx,
    body: Body,
    label: int,
    entry: AbstractStateView,
    j: nat,
) -> AbstractStateView {
    commands_spec(c, body.blocks@[label].commands@, j, entry, Seq::empty()).state
}

/// Whether the commands of a block can have this run.
pub open spec fn is_visit(body: Body, visit: Visit) -> bool {
    &&& visit.label < body.blocks@.len()
    &&& visit.values.len() == body.blocks@[visit.label as int].commands@.len() + 1
    &&& forall|j: int|
        #![trigger visit.values[j]]
        0 <= j < body.blocks@[visit.label as int].commands@.len() ==> can_lead(
            body.blocks@[visit.label as int].commands@[j],
            visit.values[j],
            visit.values[j + 1],
        )
}

/// Whether a program can go on from the end of a block to another. A branch goes by its condition.
pub open spec fn can_go_on(
    c: Ctx,
    body: Body,
    st: AbstractStateView,
    from: Visit,
    to: usize,
) -> bool {
    let block = body.blocks@[from.label as int];
    &&& block.successors@.contains(to)
    &&& block.commands@.len() > 0 ==> match block.commands@.last().value {
        CommandKind::JumpIf(cond, if_true, if_false) => {
            ||| to == if_true && can_come_out(c, cond, true, st, from.values.last())
            ||| to == if_false && can_come_out(c, cond, false, st, from.values.last())
        },
        _ => true,
    }
}

/// Whether the parameters hold these numbers, each one of its type, and nothing else is followed.
pub open spec fn are_arguments(c: Ctx, values: Map<usize, U256>) -> bool {
    &&& forall|k: usize| #[trigger]
        values.contains_key(k) ==> exists|i: int|
            0 <= i < c.function.parameters@.len() && (
            #[trigger] c.function.parameters@[i]).var.index == k
    &&& forall|i: int|
        0 <= i < c.function.parameters@.len() && values.contains_key(
            (#[trigger] c.function.parameters@[i]).var.index,
        ) ==> single_width_spec(c.function.parameters@[i].ty) is Some && fits(
            single_width_spec(c.function.parameters@[i].ty)->0,
            values[c.function.parameters@[i].var.index],
        )
}

/// Whether the blocks can be run one after the other, from the first block of the body on.
pub open spec fn is_run(
    c: Ctx,
    body: Body,
    after: Seq<Option<AbstractStateView>>,
    run: Seq<Visit>,
) -> bool {
    &&& forall|i: int| 0 <= i < run.len() ==> is_visit(body, #[trigger] run[i])
    &&& run.len() > 0 ==> run[0].label == body.start && are_arguments(c, run[0].values[0])
    &&& forall|i: int|
        #![trigger run[i]]
        0 <= i < run.len() - 1 ==> can_go_on(
            c,
            body,
            after[run[i].label as int]->0,
            run[i],
            run[i + 1].label,
        ) && run[i + 1].values[0].submap_of(run[i].values.last())
}

/// Whether what the analysis concludes on the way from the end of a block to another is right of the
/// numbers in the variables: the constants in the condition of the branch are, and where both ways
/// of the branch lead to the same block, the condition can come out true, or nothing is concluded.
pub open spec fn is_concluded_rightly(
    c: Ctx,
    body: Body,
    st: AbstractStateView,
    from: Visit,
) -> bool {
    let block = body.blocks@[from.label as int];
    block.commands@.len() > 0 ==> match block.commands@.last().value {
        CommandKind::JumpIf(cond, if_true, if_false) => {
            let numbers = from.values.last();
            &&& constants_are_right(c, cond, st, numbers)
            &&& if_true == if_false ==> can_come_out(c, cond, true, st, numbers) || or_empty(
                collect_constraints_spec(c, cond, true, st),
            ).len() == 0
        },
        _ => true,
    }
}

/// Whether the analysis reads a run rightly: the first block was last entered in a state that
/// follows the arguments, and what is concluded between blocks is right. The first holds where no
/// block leads back to the first one.
pub open spec fn is_read_rightly(
    c: Ctx,
    body: Body,
    after: Seq<Option<AbstractStateView>>,
    entered: Seq<Option<AbstractStateView>>,
    run: Seq<Visit>,
) -> bool {
    &&& run.len() > 0 ==> tracks(entered[body.start as int]->0, run[0].values[0])
    &&& forall|i: int|
        #![trigger run[i]]
        0 <= i < run.len() - 1 ==> is_concluded_rightly(
            c,
            body,
            after[run[i].label as int]->0,
            run[i],
        )
}

proof fn lemma_typed_number(width: u16, x: U256)
    requires
        is_width(width),
        fits(width, x),
    ensures
        ValueStateView::of_width(width).admits(x),
        ValueStateView::of_width(width).valid(),
{
    unknown_admits_what_fits(width, x);
    let plain = ValueStateView {
        bit_facts: Some(BitFacts::unknown_spec(width)),
        ..ValueStateView::of_interval(
            Interval::range(
                U256::zero_spec(),
                uint_max_spec(width),
            ),
        )
    };
    refining_is_exact(plain, x);
}

/// Following fewer numbers is easier.
proof fn lemma_follow_fewer(st: AbstractStateView, few: Map<usize, U256>, many: Map<usize, U256>)
    requires
        tracks(st, many),
        few.submap_of(many),
    ensures
        tracks(st, few),
{
    assert forall|k: usize| #[trigger] few.contains_key(k) implies st.locals.contains_key(k)
        && st.locals[k].valid() && st.locals[k].admits(few[k]) by {
        assert(few.dom().contains(k));
        assert(many.dom().contains(k));
        assert(many.contains_key(k));
    }
}

/// The numbers that an expression can give are admitted by its abstract values.
proof fn lemma_results_admitted(
    c: Ctx,
    e: Exp,
    st: AbstractStateView,
    values: Map<usize, U256>,
    results: Seq<Option<U256>>,
    i: int,
)
    requires
        tracks(st, values),
        valid_state(st),
        can_give(e, values, results),
        0 <= i < results.len(),
        results[i] is Some,
    ensures
        ({
            let given = eval_spec(c, e, st).0;
            let value = if i < given.len() {
                given[i]
            } else {
                ValueStateView::top_spec()
            };
            value.admits(results[i]->0) && value.valid()
        }),
{
    let given = eval_spec(c, e, st).0;
    let z = results[i]->0;
    match e.value {
        UnannotatedExp::ModuleCall(call) => {
            let width = component_width(e.ty, i)->0;
            lemma_typed_number(width, z);
            let defaults = default_returns_spec(e.ty);
            assert(defaults[i].admits(z) && i < defaults.len());
            if let Some(summary) = c.summary_of(call.callee) {
                let arguments = eval_each_spec(c, call.arguments@, call.arguments@.len(), st).0;
                lemma_returns_like_defaults(c, *call, e, arguments, summary, summary.len(), st);
            }
        },
        UnannotatedExp::Constant(_)
        | UnannotatedExp::Vector(_, _)
        | UnannotatedExp::Pack(_, _)
        | UnannotatedExp::PackVariant(_, _) => {
            lemma_typed_number(component_width(e.ty, i)->0, z);
        },
        UnannotatedExp::Multiple(es) => {
            lemma_eval_each_valid(c, es@, es@.len(), st);
            expressions_admit_their_numbers(c, es@[i], st, values);
            assert(given[i] == first_or_top_spec(eval_spec(c, es@[i], st).0));
        },
        _ => {
            expressions_admit_their_numbers(c, e, st, values);
        },
    }
}

proof fn lemma_assign_follows(
    c: Ctx,
    e: Exp,
    lvalues: Seq<LValue>,
    n: nat,
    st: AbstractStateView,
    values: Map<usize, U256>,
    results: Seq<Option<U256>>,
)
    requires
        tracks(st, values),
        valid_state(st),
        can_give(e, values, results),
        n <= lvalues.len(),
    ensures
        tracks(
            assign_all_spec(c, lvalues, n, eval_spec(c, e, st).0, st),
            assign_numbers(lvalues, n, results, values),
        ),
    decreases n,
{
    if n > 0 {
        lemma_assign_follows(c, e, lvalues, (n - 1) as nat, st, values, results);
        if n - 1 < results.len() && results[n - 1] is Some {
            lemma_results_admitted(c, e, st, values, results, n - 1);
        }
        let before = assign_all_spec(c, lvalues, (n - 1) as nat, eval_spec(c, e, st).0, st);
        let old_numbers = assign_numbers(lvalues, (n - 1) as nat, results, values);
        let next = assign_all_spec(c, lvalues, n, eval_spec(c, e, st).0, st);
        let numbers = assign_numbers(lvalues, n, results, values);
        assert forall|k: usize| #[trigger] numbers.contains_key(k) implies next.locals.contains_key(
            k,
        ) && next.locals[k].valid() && next.locals[k].admits(numbers[k]) by {
            if let LValue::Var(var) = lvalues[n - 1] {
                if k != var.index {
                    assert(old_numbers.contains_key(k));
                }
            } else {
                assert(old_numbers.contains_key(k));
            }
        }
    }
}

proof fn lemma_command_follows(
    c: Ctx,
    command: Command,
    st: AbstractStateView,
    returned: Seq<ValueStateView>,
    from: Map<usize, U256>,
    to: Map<usize, U256>,
)
    requires
        tracks(st, from),
        valid_state(st),
        can_lead(command, from, to),
    ensures
        tracks(command_spec(c, command, st, returned).state, to),
{
    reveal(command_spec);
    match command.value {
        CommandKind::Assign(lvalues, exp) => {
            let results = choose|results: Seq<Option<U256>>| #[trigger]
                can_give(exp, from, results) && to.submap_of(
                    assign_numbers(lvalues@, lvalues@.len(), results, from),
                );
            lemma_assign_follows(c, exp, lvalues@, lvalues@.len(), st, from, results);
            lemma_follow_fewer(
                assign_all_spec(c, lvalues@, lvalues@.len(), eval_spec(c, exp, st).0, st),
                to,
                assign_numbers(lvalues@, lvalues@.len(), results, from),
            );
        },
        _ => lemma_follow_fewer(st, to, from),
    }
}

proof fn lemma_visit_follows(
    c: Ctx,
    body: Body,
    entered: Seq<Option<AbstractStateView>>,
    visit: Visit,
    j: nat,
)
    requires
        is_visit(body, visit),
        sound_state(c, entered[visit.label as int]->0),
        tracks(entered[visit.label as int]->0, visit.values[0]),
        j < visit.values.len(),
    ensures
        tracks(
            state_before(c, body, visit.label as int, entered[visit.label as int]->0, j),
            visit.values[j as int],
        ),
    decreases j,
{
    let entry = entered[visit.label as int]->0;
    let commands = body.blocks@[visit.label as int].commands@;
    if j > 0 {
        lemma_visit_follows(c, body, entered, visit, (j - 1) as nat);
        lemma_commands_sound(c, commands, (j - 1) as nat, entry, Seq::empty());
        let before = commands_spec(c, commands, (j - 1) as nat, entry, Seq::empty());
        lemma_sound_state(c, before.state);
        assert(can_lead(commands[j - 1], visit.values[j - 1], visit.values[j as int]));
        lemma_command_follows(
            c,
            commands[j - 1],
            before.state,
            before.returned,
            visit.values[j - 1],
            visit.values[j as int],
        );
    }
}

/// A join follows the numbers that either side follows.
proof fn lemma_join_follows(a: AbstractStateView, b: AbstractStateView, values: Map<usize, U256>)
    requires
        valid_state(a),
        valid_state(b),
        tracks(a, values) || tracks(b, values),
    ensures
        tracks(a.join_spec(b), values),
{
    let j = a.join_spec(b);
    if !a.unreachable && !b.unreachable {
        assert forall|k: usize| #[trigger] values.contains_key(k) implies j.locals.contains_key(k)
            && j.locals[k].valid() && j.locals[k].admits(values[k]) by {
            if a.locals.contains_key(k) && b.locals.contains_key(k) {
                join_admits_both(a.locals[k], b.locals[k], values[k]);
            }
        }
    }
}

pub proof fn lemma_edge_follows(
    c: Ctx,
    body: Body,
    st: AbstractStateView,
    from: Visit,
    to: usize,
)
    requires
        from.label < body.blocks@.len(),
        tracks(st, from.values.last()),
        can_go_on(c, body, st, from, to),
        is_concluded_rightly(c, body, st, from),
    ensures
        tracks(refine_edge_spec(c, body, from.label, to, st), from.values.last()),
{
    let block = body.blocks@[from.label as int];
    let numbers = from.values.last();
    if block.commands@.len() > 0 {
        if let CommandKind::JumpIf(cond, if_true, if_false) = block.commands@.last().value {
            if can_come_out(c, cond, to == if_true, st, numbers) {
                narrowed_state_follows_the_path(c, cond, to == if_true, st, numbers);
            }
        }
    }
}

proof fn lemma_merge_follows(
    c: Ctx,
    body: Body,
    label: usize,
    n: nat,
    seen: Seq<Option<AbstractStateView>>,
    at: int,
    values: Map<usize, U256>,
)
    requires
        sound_after(c, seen),
        0 <= at < n <= body.blocks@[label as int].predecessors@.len(),
        ({
            let from = body.blocks@[label as int].predecessors@[at];
            from < seen.len() && seen[from as int] is Some && tracks(
                refine_edge_spec(c, body, from, label, seen[from as int]->0),
                values,
            )
        }),
    ensures
        merged_in_spec(c, body, label, n, seen) is Some,
        tracks(merged_in_spec(c, body, label, n, seen)->0, values),
        sound_state(c, merged_in_spec(c, body, label, n, seen)->0),
    decreases n,
{
    let predecessors = body.blocks@[label as int].predecessors@;
    let p = predecessors[n - 1];
    lemma_merged_sound(c, body, label, (n - 1) as nat, seen);
    lemma_merged_sound(c, body, label, n, seen);
    if at < n - 1 {
        lemma_merge_follows(c, body, label, (n - 1) as nat, seen, at, values);
    }
    if p < seen.len() && seen[p as int] is Some {
        lemma_edge_sound(c, body, p, label, seen[p as int]->0);
        let refined = refine_edge_spec(c, body, p, label, seen[p as int]->0);
        if let Some(existing) = merged_in_spec(c, body, label, (n - 1) as nat, seen) {
            lemma_sound_state(c, existing);
            lemma_sound_state(c, refined);
            lemma_join_follows(existing, refined, values);
        }
    }
}

proof fn lemma_first_entry(c: Ctx, n: nat, values: Map<usize, U256>)
    requires
        are_arguments(c, values),
        n <= c.function.parameters@.len(),
    ensures
        forall|k: usize| #[trigger]
            parameters_spec(c, n).contains_key(k) && values.contains_key(k) ==> parameters_spec(
                c,
                n,
            )[k].valid() && parameters_spec(c, n)[k].admits(values[k]),
        forall|i: int|
            0 <= i < n ==> parameters_spec(c, n).contains_key(
                (#[trigger] c.function.parameters@[i]).var.index,
            ),
    decreases n,
{
    if n > 0 {
        lemma_first_entry(c, (n - 1) as nat, values);
        let parameter = c.function.parameters@[n - 1];
        if values.contains_key(parameter.var.index) {
            lemma_typed_number(
                single_width_spec(parameter.ty)->0,
                values[parameter.var.index],
            );
        }
        let before = parameters_spec(c, (n - 1) as nat);
        let now = parameters_spec(c, n);
        assert forall|k: usize| #[trigger] now.contains_key(k) && values.contains_key(
            k,
        ) implies now[k].valid() && now[k].admits(values[k]) by {
            if k != parameter.var.index {
                assert(before.contains_key(k));
            }
        }
        assert forall|i: int| 0 <= i < n implies now.contains_key(
            (#[trigger] c.function.parameters@[i]).var.index,
        ) by {
            if i < n - 1 {
                assert(before.contains_key(c.function.parameters@[i].var.index));
            }
        }
    }
}

/// When the analysis of a body ends, it has followed every run of the body: before each command
/// and after each block that is run, the path is open and the abstract value of each followed
/// variable admits its number. Left out are runs that the analysis does not read rightly.
pub proof fn every_run_is_followed(c: Ctx, body: Body, steps: nat, run: Seq<Visit>, i: int)
    requires
        neighbours_agree(body),
        body.start < body.blocks@.len(),
        run_spec(c, body, first_progress(body), steps) is Some,
        is_run(c, body, run_spec(c, body, first_progress(body), steps)->0.after, run),
        is_read_rightly(
            c,
            body,
            run_spec(c, body, first_progress(body), steps)->0.after,
            entry_states(c, body, steps),
            run,
        ),
        0 <= i < run.len(),
    ensures
        ({
            let after = run_spec(c, body, first_progress(body), steps)->0.after;
            let entered = entry_states(c, body, steps);
            let l = run[i].label as int;
            &&& after[l] is Some
            &&& entered[l] is Some
            &&& tracks(after[l]->0, run[i].values.last())
            &&& forall|j: int|
                #![trigger run[i].values[j]]
                0 <= j < run[i].values.len() ==> tracks(
                    state_before(c, body, l, entered[l]->0, j as nat),
                    run[i].values[j],
                )
        }),
    decreases i,
{
    let after = run_spec(c, body, first_progress(body), steps)->0.after;
    let entered = entry_states(c, body, steps);
    finished_states_are_a_fixed_point(c, body, steps);
    let visit = run[i];
    let l = visit.label as int;
    assert(is_visit(body, visit));
    if i == 0 {
        assert(after[l] is Some);
    } else {
        every_run_is_followed(c, body, steps, run, i - 1);
        lemma_entry_follows(c, body, steps, run, i);
    }
    assert(is_settled(c, body, l, entered[l]->0, after));
    let seen = choose|seen: Seq<Option<AbstractStateView>>| #[trigger]
        agree_before(body, l, seen, after) && sound_after(c, seen) && entered[l]->0 == block_in_spec(
            c,
            body,
            l as usize,
            seen,
        );
    lemma_entry_sound(c, body, l as usize, seen);
    assert forall|j: int|
        #![trigger visit.values[j]]
        0 <= j < visit.values.len() implies tracks(
        state_before(c, body, l, entered[l]->0, j as nat),
        visit.values[j],
    ) by {
        lemma_visit_follows(c, body, entered, visit, j as nat);
    }
    lemma_visit_follows(c, body, entered, visit, (visit.values.len() - 1) as nat);
    assert(after[l]->0 == leaves(c, body, l, entered[l]->0));
}

/// The state at the start of a function follows its arguments.
proof fn lemma_initial_follows(c: Ctx, numbers: Map<usize, U256>)
    requires
        are_arguments(c, numbers),
    ensures
        tracks(initial_state_spec(c), numbers),
{
    lemma_first_entry(c, c.function.parameters@.len(), numbers);
    let initial = initial_state_spec(c);
    assert forall|k: usize| #[trigger] numbers.contains_key(k) implies initial.locals.contains_key(
        k,
    ) && initial.locals[k].valid() && initial.locals[k].admits(numbers[k]) by {
        let p = choose|p: int|
            0 <= p < c.function.parameters@.len() && (#[trigger] c.function.parameters@[p]).var.index
                == k;
        assert(parameters_spec(c, c.function.parameters@.len()).contains_key(
            c.function.parameters@[p].var.index,
        ));
    }
}

/// Where no block leads back to the first one, the first block is entered in a state that follows
/// the arguments.
pub proof fn arguments_are_followed(c: Ctx, body: Body, steps: nat, numbers: Map<usize, U256>)
    requires
        neighbours_agree(body),
        body.start < body.blocks@.len(),
        body.blocks@[body.start as int].predecessors@.len() == 0,
        run_spec(c, body, first_progress(body), steps) is Some,
        are_arguments(c, numbers),
    ensures
        tracks(entry_states(c, body, steps)[body.start as int]->0, numbers),
{
    let after = run_spec(c, body, first_progress(body), steps)->0.after;
    let entered = entry_states(c, body, steps);
    let l = body.start as int;
    finished_states_are_a_fixed_point(c, body, steps);
    assert(after[l] is Some);
    assert(is_settled(c, body, l, entered[l]->0, after));
    lemma_initial_follows(c, numbers);
}

/// From the end of one block of a run to the start of the next.
proof fn lemma_entry_follows(c: Ctx, body: Body, steps: nat, run: Seq<Visit>, i: int)
    requires
        neighbours_agree(body),
        run_spec(c, body, first_progress(body), steps) is Some,
        is_run(c, body, run_spec(c, body, first_progress(body), steps)->0.after, run),
        is_read_rightly(
            c,
            body,
            run_spec(c, body, first_progress(body), steps)->0.after,
            entry_states(c, body, steps),
            run,
        ),
        0 < i < run.len(),
        ({
            let after = run_spec(c, body, first_progress(body), steps)->0.after;
            let l = run[i - 1].label as int;
            after[l] is Some && tracks(after[l]->0, run[i - 1].values.last())
        }),
    ensures
        ({
            let after = run_spec(c, body, first_progress(body), steps)->0.after;
            let entered = entry_states(c, body, steps);
            let l = run[i].label as int;
            after[l] is Some && entered[l] is Some && tracks(entered[l]->0, run[i].values[0])
        }),
{
    let after = run_spec(c, body, first_progress(body), steps)->0.after;
    let entered = entry_states(c, body, steps);
    finished_states_are_a_fixed_point(c, body, steps);
    let from = run[i - 1];
    let to = run[i];
    let f = from.label as int;
    let l = to.label as int;
    assert(is_visit(body, from));
    assert(is_visit(body, to));
    assert(run[(i - 1) + 1] == to);
    assert(can_go_on(c, body, after[f]->0, from, to.label));
    assert(is_concluded_rightly(c, body, after[f]->0, from));
    let successors = body.blocks@[f].successors@;
    let k = choose|k: int| 0 <= k < successors.len() && successors[k] == to.label;
    assert(after[body.blocks@[f].successors@[k] as int] is Some);
    lemma_edge_follows(c, body, after[f]->0, from, to.label);
    assert(is_settled(c, body, l, entered[l]->0, after));
    let seen = choose|seen: Seq<Option<AbstractStateView>>| #[trigger]
        agree_before(body, l, seen, after) && sound_after(c, seen) && entered[l]->0 == block_in_spec(
            c,
            body,
            l as usize,
            seen,
        );
    let predecessors = body.blocks@[l].predecessors@;
    assert(predecessors.contains(from.label));
    let at = choose|at: int| 0 <= at < predecessors.len() && predecessors[at] == from.label;
    assert(body.blocks@[l].predecessors@[at] == from.label);
    assert(seen[f] == after[f]);
    lemma_merge_follows(
        c,
        body,
        to.label,
        predecessors.len(),
        seen,
        at,
        from.values.last(),
    );
    lemma_follow_fewer(entered[l]->0, to.values[0], from.values.last());
}

} // verus!
