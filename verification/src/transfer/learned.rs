//! What callers learn: the risks of returned values, and the summaries that pass them on.

use crate::ast::{Body, Command, CommandKind};
use crate::domain::state::AbstractStateView;
use crate::domain::value::ValueStateView;
use crate::summaries::ReturnSummaryView;
use crate::transfer::command::{command_spec, commands_spec, record_spec};
use crate::transfer::context::{AnalysisMode, Ctx};
use crate::transfer::engine::{
    analyze_spec, block_in_spec, first_progress, run_spec, step_spec, Progress,
};
use crate::transfer::eval::eval_spec;
use crate::transfer::fixpoint::{
    entered_spec, entry_states, lemma_state_ignores_returns, neighbours_agree, note_entry,
};
use crate::transfer::losses::{loss_is_carried, run_counts_known, Loss};
use crate::transfer::program::{summary_of_values, Job};
use crate::transfer::reports::{lemma_return_carries, lemma_round_coherent, returns_loss};
use crate::transfer::risks::{carries, coherent_summaries, joins_carry_both_risks};
use crate::transfer::runs::{is_read_rightly, is_run, state_before, Visit};
use vstd::prelude::*;

verus! {

/// Whether the `k`th of the values carries a risk with this key.
pub open spec fn value_carries(values: Seq<ValueStateView>, k: int, key: Seq<char>) -> bool {
    0 <= k < values.len() && carries(values[k].risky_origins, key)
}

proof fn lemma_record_carries(
    returned: Seq<ValueStateView>,
    values: Seq<ValueStateView>,
    k: int,
    key: Seq<char>,
)
    requires
        value_carries(returned, k, key) || value_carries(values, k, key),
    ensures
        value_carries(record_spec(returned, values), k, key),
{
    if k < returned.len() && k < values.len() {
        joins_carry_both_risks(returned[k], values[k], key);
    }
}

proof fn lemma_commands_keep_returned(
    c: Ctx,
    commands: Seq<Command>,
    m: nat,
    n: nat,
    st: AbstractStateView,
    returned: Seq<ValueStateView>,
    k: int,
    key: Seq<char>,
)
    requires
        m <= n <= commands.len(),
        value_carries(commands_spec(c, commands, m, st, returned).returned, k, key),
    ensures
        value_carries(commands_spec(c, commands, n, st, returned).returned, k, key),
    decreases n,
{
    if m < n {
        lemma_commands_keep_returned(c, commands, m, (n - 1) as nat, st, returned, k, key);
        reveal(command_spec);
        let before = commands_spec(c, commands, (n - 1) as nat, st, returned);
        if let CommandKind::Return(exp) = commands[n - 1].value {
            if !before.state.unreachable {
                lemma_record_carries(
                    before.returned,
                    eval_spec(c, exp, before.state).0,
                    k,
                    key,
                );
            }
        }
    }
}

/// Whether a block that is entered in a state returns, by its `j`th command, a value that carries a
/// risk as the `k`th of its values.
pub open spec fn block_returns(
    c: Ctx,
    body: Body,
    label: int,
    entry: AbstractStateView,
    j: int,
    k: int,
    key: Seq<char>,
) -> bool {
    let commands = body.blocks@[label].commands@;
    let st = state_before(c, body, label, entry, j as nat);
    &&& !entry.unreachable
    &&& 0 <= j < commands.len()
    &&& commands[j].value is Return
    &&& !st.unreachable
    &&& value_carries(eval_spec(c, commands[j].value->Return_0, st).0, k, key)
}

proof fn lemma_block_gives(
    c: Ctx,
    body: Body,
    label: int,
    entry: AbstractStateView,
    returned: Seq<ValueStateView>,
    j: int,
    k: int,
    key: Seq<char>,
)
    requires
        block_returns(c, body, label, entry, j, k, key),
    ensures
        value_carries(
            commands_spec(
                c,
                body.blocks@[label].commands@,
                body.blocks@[label].commands@.len(),
                entry,
                returned,
            ).returned,
            k,
            key,
        ),
{
    let commands = body.blocks@[label].commands@;
    let before = commands_spec(c, commands, j as nat, entry, returned);
    lemma_state_ignores_returns(c, commands, j as nat, entry, returned, Seq::empty());
    let values = eval_spec(c, commands[j].value->Return_0, before.state).0;
    lemma_record_carries(before.returned, values, k, key);
    reveal(command_spec);
    assert(commands_spec(c, commands, (j + 1) as nat, entry, returned).returned == record_spec(
        before.returned,
        values,
    ));
    lemma_commands_keep_returned(
        c,
        commands,
        (j + 1) as nat,
        commands.len(),
        entry,
        returned,
        k,
        key,
    );
}

/// Whether the returned values carry the risks of all returns, as the blocks were last entered.
spec fn holds_returned(
    c: Ctx,
    body: Body,
    entered: Seq<Option<AbstractStateView>>,
    returned: Seq<ValueStateView>,
) -> bool {
    forall|l: int, j: int, k: int, key: Seq<char>|
        #![trigger block_returns(c, body, l, entered[l]->0, j, k, key)]
        0 <= l < entered.len() && entered[l] is Some && block_returns(
            c,
            body,
            l,
            entered[l]->0,
            j,
            k,
            key,
        ) ==> value_carries(returned, k, key)
}

proof fn lemma_step_returned(
    c: Ctx,
    body: Body,
    p: Progress,
    entered: Seq<Option<AbstractStateView>>,
)
    requires
        p.worklist.len() > 0,
        entered.len() == p.after.len(),
        holds_returned(c, body, entered, p.returned),
    ensures
        holds_returned(c, body, note_entry(c, body, p, entered), step_spec(c, body, p).returned),
        note_entry(c, body, p, entered).len() == step_spec(c, body, p).after.len(),
{
    reveal(step_spec);
    let label = p.worklist[0];
    let q = step_spec(c, body, p);
    let next = note_entry(c, body, p, entered);
    let runs = label < body.blocks@.len() && label < p.after.len();
    assert forall|l: int, j: int, k: int, key: Seq<char>|
        #![trigger block_returns(c, body, l, next[l]->0, j, k, key)]
        0 <= l < next.len() && next[l] is Some && block_returns(
            c,
            body,
            l,
            next[l]->0,
            j,
            k,
            key,
        ) implies value_carries(q.returned, k, key) by {
        if runs && l == label {
            lemma_block_gives(c, body, l, next[l]->0, p.returned, j, k, key);
        } else {
            assert(block_returns(c, body, l, entered[l]->0, j, k, key));
            assert(value_carries(p.returned, k, key));
            if runs && !block_in_spec(c, body, label, p.after).unreachable {
                let commands = body.blocks@[label as int].commands@;
                lemma_commands_keep_returned(
                    c,
                    commands,
                    0,
                    commands.len(),
                    block_in_spec(c, body, label, p.after),
                    p.returned,
                    k,
                    key,
                );
            }
        }
    }
}

proof fn lemma_run_returned(
    c: Ctx,
    body: Body,
    p: Progress,
    steps: nat,
    entered: Seq<Option<AbstractStateView>>,
)
    requires
        entered.len() == p.after.len(),
        holds_returned(c, body, entered, p.returned),
        run_spec(c, body, p, steps) is Some,
    ensures
        holds_returned(
            c,
            body,
            entered_spec(c, body, p, steps, entered),
            run_spec(c, body, p, steps)->0.returned,
        ),
    decreases steps,
{
    if p.worklist.len() > 0 {
        lemma_step_returned(c, body, p, entered);
        lemma_run_returned(
            c,
            body,
            step_spec(c, body, p),
            (steps - 1) as nat,
            note_entry(c, body, p, entered),
        );
    }
}

/// What a body returns carries the risks of each value that one of its returns gives, entered as
/// its block was last.
pub proof fn returned_values_carry_their_risks(
    c: Ctx,
    body: Body,
    steps: nat,
    label: int,
    j: int,
    k: int,
    key: Seq<char>,
)
    requires
        run_spec(c, body, first_progress(body), steps) is Some,
        0 <= label < entry_states(c, body, steps).len(),
        entry_states(c, body, steps)[label] is Some,
        block_returns(c, body, label, entry_states(c, body, steps)[label]->0, j, k, key),
    ensures
        value_carries(run_spec(c, body, first_progress(body), steps)->0.returned, k, key),
{
    let first = first_progress(body);
    let nothing: Seq<Option<AbstractStateView>> = Seq::new(body.blocks@.len(), |i: int| None);
    assert(holds_returned(c, body, nothing, first.returned));
    lemma_run_returned(c, body, first, steps, nothing);
}

/// Where a run of a function returns a value that lost bits in a shift, the value that the analysis
/// of the function returns carries the loss. Left out are losses in shifts by amounts that are
/// not known, and runs that the analysis does not read rightly.
pub proof fn callers_learn_of_lost_bits(
    c: Ctx,
    body: Body,
    steps: nat,
    run: Seq<Visit>,
    i: int,
    j: int,
    k: int,
    loss: Loss,
)
    requires
        coherent_summaries(c.summaries),
        neighbours_agree(body),
        body.start < body.blocks@.len(),
        run_spec(c, body, first_progress(body), steps) is Some,
        is_run(c, body, run_spec(c, body, first_progress(body), steps)->0.after, run),
        is_read_rightly(
            c,
            body,
            run_spec(c, body, first_progress(body), steps)->0.after,
            entry_states(c, body, steps),
            run,
        ),
        run_counts_known(c, body, entry_states(c, body, steps), run, loss.at),
        returns_loss(body, run, i, j, k, loss),
        0 <= k,
    ensures
        ({
            let returned = run_spec(c, body, first_progress(body), steps)->0.returned;
            k < returned.len() && loss_is_carried(returned[k].risky_origins, loss)
        }),
{
    let l = run[i].label as int;
    let entry = entry_states(c, body, steps)[l]->0;
    lemma_return_carries(c, body, steps, run, i, j, k, loss);
    let st = state_before(c, body, l, entry, j as nat);
    let value = eval_spec(c, body.blocks@[l].commands@[j].value->Return_0, st).0[k];
    assert forall|key: Seq<char>| #[trigger] carries(value.risky_origins, key) implies value_carries(
        run_spec(c, body, first_progress(body), steps)->0.returned,
        k,
        key,
    ) by {
        assert(block_returns(c, body, l, entry, j, k, key));
        returned_values_carry_their_risks(c, body, steps, l, j, k, key);
    }
}

/// Whether a summary is that of the analysis of a function, with other summaries to go by.
pub open spec fn is_summary_of(
    job: Job,
    prior: Seq<Seq<ReturnSummaryView>>,
    f: int,
    summary: Seq<ReturnSummaryView>,
    steps: nat,
) -> bool {
    let outcome = analyze_spec(job.ctx(f, prior, AnalysisMode::Summary), steps);
    outcome is Some && summary == summary_of_values(outcome->0.returned)
}

/// Whether summaries are those of one round of analyses, with other summaries to go by.
pub open spec fn is_round(
    job: Job,
    prior: Seq<Seq<ReturnSummaryView>>,
    summaries: Seq<Seq<ReturnSummaryView>>,
    steps: nat,
) -> bool {
    &&& coherent_summaries(prior)
    &&& prior.len() == job.functions.len()
    &&& summaries.len() == job.functions.len()
    &&& forall|f: int|
        0 <= f < job.functions.len() && job.kept[f] ==> is_summary_of(
            job,
            prior,
            f,
            #[trigger] summaries[f],
            steps,
        )
}

proof fn lemma_round_is_round(
    job: Job,
    prior: Seq<Seq<ReturnSummaryView>>,
    n: nat,
    f: int,
    steps: nat,
)
    requires
        n <= job.functions.len(),
        0 <= f < n,
        job.kept[f],
        coherent_summaries(prior),
        prior.len() == job.functions.len(),
        job.round_spec(prior, n, steps) is Some,
    ensures
        is_summary_of(job, prior, f, job.round_spec(prior, n, steps)->0[f], steps),
    decreases n,
{
    lemma_round_coherent(job, prior, (n - 1) as nat, steps);
    if f < n - 1 {
        lemma_round_is_round(job, prior, (n - 1) as nat, f, steps);
    }
}

proof fn lemma_rounds_end_in_a_round(
    job: Job,
    prior: Seq<Seq<ReturnSummaryView>>,
    rounds: nat,
    steps: nat,
) -> (last: Seq<Seq<ReturnSummaryView>>)
    requires
        rounds > 0,
        coherent_summaries(prior),
        prior.len() == job.functions.len(),
        job.rounds_spec(prior, rounds, steps) is Some,
    ensures
        is_round(job, last, job.rounds_spec(prior, rounds, steps)->0, steps),
    decreases rounds,
{
    let next = job.round_spec(prior, job.functions.len(), steps)->0;
    lemma_round_coherent(job, prior, job.functions.len(), steps);
    if next == prior || rounds == 1 {
        reveal_with_fuel(Job::rounds_spec, 2);
        assert(job.rounds_spec(prior, rounds, steps)->0 == next);
        assert forall|f: int| 0 <= f < job.functions.len() && job.kept[f] implies is_summary_of(
            job,
            prior,
            f,
            #[trigger] next[f],
            steps,
        ) by {
            lemma_round_is_round(job, prior, job.functions.len(), f, steps);
        }
        assert(is_round(job, prior, next, steps));
        prior
    } else {
        let last = lemma_rounds_end_in_a_round(job, next, (rounds - 1) as nat, steps);
        assert(job.rounds_spec(prior, rounds, steps) == job.rounds_spec(
            next,
            (rounds - 1) as nat,
            steps,
        ));
        last
    }
}

/// What callers know of functions comes from analyses of the functions: those of the last round.
pub proof fn summaries_come_from_analyses(job: Job, steps: nat)
    requires
        job.summaries_spec(steps) is Some,
    ensures
        exists|prior: Seq<Seq<ReturnSummaryView>>| #[trigger]
            is_round(job, prior, job.summaries_spec(steps)->0, steps),
{
    let nothing: Seq<Seq<ReturnSummaryView>> = Seq::new(
        job.functions.len(),
        |i: int| Seq::empty(),
    );
    let prior = lemma_rounds_end_in_a_round(job, nothing, 6, steps);
    assert(is_round(job, prior, job.summaries_spec(steps)->0, steps));
}

} // verus!
