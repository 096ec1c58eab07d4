//! What holds when the work list is empty: the states are a fixed point of the interpretation.

use crate::ast::{Body, Command};
use crate::domain::state::AbstractStateView;
use crate::domain::value::ValueStateView;
use crate::transfer::command::{command_spec, commands_spec};
use crate::transfer::context::Ctx;
use crate::transfer::engine::{block_in_spec, first_progress, run_spec, step_spec, Progress};
use crate::transfer::validity::{lemma_commands_sound, lemma_entry_sound, sound_after, sound_state};
use vstd::prelude::*;

verus! {

/// Whether the lists of neighbours fit together: a block is a successor of exactly its
/// predecessors.
pub open spec fn neighbours_agree(body: Body) -> bool {
    forall|from: int, to: int|
        #![trigger body.blocks@[from], body.blocks@[to]]
        0 <= from < body.blocks@.len() && 0 <= to < body.blocks@.len() ==> (
        body.blocks@[to].predecessors@.contains(from as usize)
            <==> body.blocks@[from].successors@.contains(to as usize))
}

/// The states in which the blocks were last run, after one more step.
pub open spec fn note_entry(
    c: Ctx,
    body: Body,
    p: Progress,
    entered: Seq<Option<AbstractStateView>>,
) -> Seq<Option<AbstractStateView>> {
    let label = p.worklist[0];
    if label >= body.blocks@.len() || label >= p.after.len() {
        entered
    } else {
        entered.update(label as int, Some(block_in_spec(c, body, label, p.after)))
    }
}

/// The states in which the blocks were last run, when the work list is empty.
pub open spec fn entered_spec(
    c: Ctx,
    body: Body,
    p: Progress,
    steps: nat,
    entered: Seq<Option<AbstractStateView>>,
) -> Seq<Option<AbstractStateView>>
    decreases steps,
{
    if p.worklist.len() == 0 || steps == 0 {
        entered
    } else {
        entered_spec(
            c,
            body,
            step_spec(c, body, p),
            (steps - 1) as nat,
            note_entry(c, body, p, entered),
        )
    }
}

/// The states in which the blocks were last run, in the analysis of a body.
pub open spec fn entry_states(c: Ctx, body: Body, steps: nat) -> Seq<Option<AbstractStateView>> {
    entered_spec(
        c,
        body,
        first_progress(body),
        steps,
        Seq::new(body.blocks@.len(), |i: int| None),
    )
}

/// The state after a block that was entered in a state.
pub open spec fn leaves(c: Ctx, body: Body, label: int, entry: AbstractStateView) -> AbstractStateView {
    if entry.unreachable {
        entry
    } else {
        let commands = body.blocks@[label].commands@;
        commands_spec(c, commands, commands.len(), entry, Seq::empty()).state
    }
}

/// Whether two lists have the same state after each open predecessor of a block.
pub open spec fn agree_before(
    body: Body,
    label: int,
    seen: Seq<Option<AbstractStateView>>,
    after: Seq<Option<AbstractStateView>>,
) -> bool {
    &&& seen.len() == after.len()
    &&& forall|i: int|
        #![trigger body.blocks@[label].predecessors@[i]]
        0 <= i < body.blocks@[label].predecessors@.len() ==> {
            let from = body.blocks@[label].predecessors@[i] as int;
            from < after.len() && after[from] is Some && !after[from]->0.unreachable ==> seen[from]
                == after[from]
        }
}

/// Whether a block was last entered with what its open predecessors have to pass on.
pub open spec fn is_settled(
    c: Ctx,
    body: Body,
    label: int,
    entry: AbstractStateView,
    after: Seq<Option<AbstractStateView>>,
) -> bool {
    exists|seen: Seq<Option<AbstractStateView>>| #[trigger]
        agree_before(body, label, seen, after) && sound_after(c, seen) && entry == block_in_spec(
            c,
            body,
            label as usize,
            seen,
        )
}

/// The values returned so far do not matter for the state that commands leave.
pub proof fn lemma_state_ignores_returns(
    c: Ctx,
    commands: Seq<Command>,
    n: nat,
    st: AbstractStateView,
    a: Seq<ValueStateView>,
    b: Seq<ValueStateView>,
)
    ensures
        commands_spec(c, commands, n, st, a).state == commands_spec(c, commands, n, st, b).state,
    decreases n,
{
    if n > 0 && n <= commands.len() {
        lemma_state_ignores_returns(c, commands, (n - 1) as nat, st, a, b);
        reveal(command_spec);
    }
}

/// What holds between two steps.
spec fn in_step(
    c: Ctx,
    body: Body,
    p: Progress,
    entered: Seq<Option<AbstractStateView>>,
) -> bool {
    &&& p.after.len() == body.blocks@.len()
    &&& entered.len() == body.blocks@.len()
    &&& sound_after(c, p.after)
    &&& forall|l: int| 0 <= l < p.after.len() ==> (#[trigger] p.after[l] is Some <==> entered[l] is Some)
    &&& forall|l: int|
        0 <= l < p.after.len() && #[trigger] p.after[l] is Some ==> p.after[l]->0 == leaves(
            c,
            body,
            l,
            entered[l]->0,
        )
    &&& forall|l: int|
        0 <= l < p.after.len() && #[trigger] p.after[l] is Some && !p.worklist.contains(l as usize)
            ==> is_settled(c, body, l, entered[l]->0, p.after)
    &&& forall|l: int, i: int|
        #![trigger p.after[l], body.blocks@[l].successors@[i]]
        0 <= l < p.after.len() && p.after[l] is Some && !p.after[l]->0.unreachable && 0 <= i
            < body.blocks@[l].successors@.len() ==> is_visited(
            p,
            body.blocks@[l].successors@[i],
        )
    &&& is_visited(p, body.start)
}

/// Whether a block was run, or is still to be run.
spec fn is_visited(p: Progress, label: usize) -> bool {
    label < p.after.len() ==> p.after[label as int] is Some || p.worklist.contains(label)
}

proof fn lemma_visited_after(p: Progress, q: Progress, label: usize, s: usize)
    requires
        p.worklist.len() > 0,
        label == p.worklist[0],
        label < p.after.len(),
        q.after.len() == p.after.len(),
        q.after[label as int] is Some,
        forall|l: int| 0 <= l < p.after.len() && l != label ==> q.after[l] == #[trigger] p.after[l],
        forall|l: usize| #[trigger] p.worklist.subrange(1, p.worklist.len() as int).contains(l)
            ==> q.worklist.contains(l),
        is_visited(p, s),
    ensures
        is_visited(q, s),
{
    if s < p.after.len() && s != label {
        assert(q.after[s as int] == p.after[s as int]);
        if p.worklist.contains(s) {
            let rest = p.worklist.subrange(1, p.worklist.len() as int);
            let k = choose|k: int| 0 <= k < p.worklist.len() && p.worklist[k] == s;
            assert(rest[k - 1] == s);
            assert(rest.contains(s));
        }
    }
}

proof fn lemma_missing_label(
    c: Ctx,
    body: Body,
    p: Progress,
    entered: Seq<Option<AbstractStateView>>,
)
    requires
        p.worklist.len() > 0,
        p.worklist[0] >= body.blocks@.len(),
        in_step(c, body, p, entered),
    ensures
        in_step(c, body, step_spec(c, body, p), note_entry(c, body, p, entered)),
{
    reveal(step_spec);
    let rest = p.worklist.subrange(1, p.worklist.len() as int);
    let q = step_spec(c, body, p);
    let next = note_entry(c, body, p, entered);
    assert forall|s: usize| is_visited(p, s) implies #[trigger] is_visited(q, s) by {
        if s < p.after.len() && p.worklist.contains(s) {
            let k = choose|k: int| 0 <= k < p.worklist.len() && p.worklist[k] == s;
            assert(rest[k - 1] == s);
            assert(rest.contains(s));
        }
    }
    assert forall|l: int|
        0 <= l < q.after.len() && #[trigger] q.after[l] is Some && !q.worklist.contains(
            l as usize,
        ) implies is_settled(c, body, l, next[l]->0, q.after) by {
        if p.worklist.contains(l as usize) {
            let k = choose|k: int| 0 <= k < p.worklist.len() && p.worklist[k] == l as usize;
            assert(rest[k - 1] == l as usize);
            assert(rest.contains(l as usize));
        }
        assert(p.after[l] is Some);
    }
    assert forall|l: int, i: int|
        #![trigger q.after[l], body.blocks@[l].successors@[i]]
        0 <= l < q.after.len() && q.after[l] is Some && !q.after[l]->0.unreachable && 0 <= i
            < body.blocks@[l].successors@.len() implies is_visited(
        q,
        body.blocks@[l].successors@[i],
    ) by {
        assert(p.after[l] is Some);
        assert(is_visited(p, body.blocks@[l].successors@[i]));
    }
}

proof fn lemma_present_label(
    c: Ctx,
    body: Body,
    p: Progress,
    entered: Seq<Option<AbstractStateView>>,
)
    requires
        neighbours_agree(body),
        p.worklist.len() > 0,
        p.worklist[0] < body.blocks@.len(),
        in_step(c, body, p, entered),
    ensures
        in_step(c, body, step_spec(c, body, p), note_entry(c, body, p, entered)),
{
    reveal(step_spec);
    let label = p.worklist[0];
    let rest = p.worklist.subrange(1, p.worklist.len() as int);
    let q = step_spec(c, body, p);
    let next = note_entry(c, body, p, entered);
    assert forall|l: usize| rest.contains(l) implies q.worklist.contains(l) by {
        let k = choose|k: int| 0 <= k < rest.len() && rest[k] == l;
        assert(q.worklist[k] == l);
    }
    let entry = block_in_spec(c, body, label, p.after);
    let block = body.blocks@[label as int];
    let left = leaves(c, body, label as int, entry);
    lemma_state_ignores_returns(
        c,
        block.commands@,
        block.commands@.len(),
        entry,
        p.returned,
        Seq::empty(),
    );
    assert(q.after == p.after.update(label as int, Some(left)));
    lemma_entry_sound(c, body, label, p.after);
    lemma_commands_sound(c, block.commands@, block.commands@.len(), entry, Seq::empty());
    assert(sound_after(c, q.after)) by {
        assert forall|l: int| 0 <= l < q.after.len() && #[trigger] q.after[l] is Some implies sound_state(
            c,
            q.after[l]->0,
        ) by {
            assert(l == label || q.after[l] == p.after[l]);
        }
    }
    assert(next == entered.update(label as int, Some(entry)));
    let changed = p.after[label as int] != Some(left);
    assert(!entry.unreachable && changed ==> q.worklist == rest + block.successors@);
    assert forall|i: int| !entry.unreachable && changed && 0 <= i < block.successors@.len() implies q.worklist.contains(
        #[trigger] block.successors@[i],
    ) by {
        assert(q.worklist[rest.len() + i] == block.successors@[i]);
    }
    assert forall|l: int| 0 <= l < q.after.len() && #[trigger] q.after[l] is Some implies q.after[l]->0
        == leaves(c, body, l, next[l]->0) by {
        assert(p.after[l] is Some || l == label);
    }
    assert forall|l: int|
        0 <= l < q.after.len() && #[trigger] q.after[l] is Some && !q.worklist.contains(
            l as usize,
        ) implies is_settled(c, body, l, next[l]->0, q.after) by {
        lemma_still_settled(c, body, p, q, label, left, entered, next, l);
    }
    assert forall|l: int, i: int|
        #![trigger q.after[l], body.blocks@[l].successors@[i]]
        0 <= l < q.after.len() && q.after[l] is Some && !q.after[l]->0.unreachable && 0 <= i
            < body.blocks@[l].successors@.len() implies is_visited(
        q,
        body.blocks@[l].successors@[i],
    ) by {
        let s = body.blocks@[l].successors@[i];
        if l == label && changed {
            assert(!entry.unreachable);
            assert(q.worklist.contains(block.successors@[i]));
        } else {
            assert(p.after[l] == q.after[l]);
            assert(is_visited(p, s));
            lemma_visited_after(p, q, label, s);
        }
    }
    lemma_visited_after(p, q, label, body.start);
}

proof fn lemma_step_keeps(
    c: Ctx,
    body: Body,
    p: Progress,
    entered: Seq<Option<AbstractStateView>>,
)
    requires
        neighbours_agree(body),
        p.worklist.len() > 0,
        in_step(c, body, p, entered),
    ensures
        in_step(c, body, step_spec(c, body, p), note_entry(c, body, p, entered)),
{
    if p.worklist[0] < body.blocks@.len() {
        lemma_present_label(c, body, p, entered);
    } else {
        lemma_missing_label(c, body, p, entered);
    }
}

proof fn lemma_still_settled(
    c: Ctx,
    body: Body,
    p: Progress,
    q: Progress,
    label: usize,
    left: AbstractStateView,
    entered: Seq<Option<AbstractStateView>>,
    next: Seq<Option<AbstractStateView>>,
    l: int,
)
    requires
        neighbours_agree(body),
        p.worklist.len() > 0,
        in_step(c, body, p, entered),
        label == p.worklist[0],
        label < body.blocks@.len(),
        ({
            let entry = block_in_spec(c, body, label, p.after);
            &&& left == leaves(c, body, label as int, entry)
            &&& q.after == p.after.update(label as int, Some(left))
            &&& next == entered.update(label as int, Some(entry))
            &&& !entry.unreachable && p.after[label as int] != Some(left) ==> forall|i: int|
                0 <= i < body.blocks@[label as int].successors@.len() ==> q.worklist.contains(
                    #[trigger] body.blocks@[label as int].successors@[i],
                )
        }),
        forall|s: usize| #[trigger] p.worklist.subrange(1, p.worklist.len() as int).contains(s)
            ==> q.worklist.contains(s),
        0 <= l < q.after.len(),
        q.after[l] is Some,
        !q.worklist.contains(l as usize),
    ensures
        is_settled(c, body, l, next[l]->0, q.after),
{
    let entry = block_in_spec(c, body, label, p.after);
    let rest = p.worklist.subrange(1, p.worklist.len() as int);
    assert(body.blocks.len() == body.blocks@.len());
    assert(l as usize == l);
    let seen = if l == label {
        p.after
    } else {
        assert(p.after[l] is Some);
        if p.worklist.contains(l as usize) {
            let k = choose|k: int| 0 <= k < p.worklist.len() && p.worklist[k] == l as usize;
            assert(rest[k - 1] == l as usize);
            assert(rest.contains(l as usize));
        }
        assert(is_settled(c, body, l, entered[l]->0, p.after));
        choose|seen: Seq<Option<AbstractStateView>>| #[trigger]
            agree_before(body, l, seen, p.after) && sound_after(c, seen) && entered[l]->0 == block_in_spec(
                c,
                body,
                l as usize,
                seen,
            )
    };
    assert(agree_before(body, l, seen, q.after)) by {
        assert forall|i: int|
            #![trigger body.blocks@[l].predecessors@[i]]
            0 <= i < body.blocks@[l].predecessors@.len() implies {
            let from = body.blocks@[l].predecessors@[i] as int;
            from < q.after.len() && q.after[from] is Some && !q.after[from]->0.unreachable
                ==> seen[from] == q.after[from]
        } by {
            let from = body.blocks@[l].predecessors@[i] as int;
            if from == label && !left.unreachable {
                assert(body.blocks@[l].predecessors@.contains(from as usize));
                assert(body.blocks@[from].successors@.contains(l as usize));
                let k = choose|k: int|
                    0 <= k < body.blocks@[from].successors@.len()
                        && body.blocks@[from].successors@[k] == l as usize;
                if p.after[label as int] != Some(left) {
                    assert(!entry.unreachable);
                    assert(q.worklist.contains(body.blocks@[label as int].successors@[k]));
                }
            }
        }
    }
}

proof fn lemma_run_keeps(
    c: Ctx,
    body: Body,
    p: Progress,
    steps: nat,
    entered: Seq<Option<AbstractStateView>>,
)
    requires
        neighbours_agree(body),
        in_step(c, body, p, entered),
        run_spec(c, body, p, steps) is Some,
    ensures
        in_step(
            c,
            body,
            run_spec(c, body, p, steps)->0,
            entered_spec(c, body, p, steps, entered),
        ),
        run_spec(c, body, p, steps)->0.worklist.len() == 0,
    decreases steps,
{
    if p.worklist.len() > 0 {
        lemma_step_keeps(c, body, p, entered);
        lemma_run_keeps(
            c,
            body,
            step_spec(c, body, p),
            (steps - 1) as nat,
            note_entry(c, body, p, entered),
        );
    }
}

/// When the analysis of a body ends, its states are a fixed point: the first block was run; after
/// each block that was run stands the state that its commands leave of what its open predecessors
/// pass on to it; and every successor of a block with an open end was run.
pub proof fn finished_states_are_a_fixed_point(c: Ctx, body: Body, steps: nat)
    requires
        neighbours_agree(body),
        run_spec(c, body, first_progress(body), steps) is Some,
    ensures
        ({
            let after = run_spec(c, body, first_progress(body), steps)->0.after;
            let entered = entry_states(c, body, steps);
            &&& after.len() == body.blocks@.len()
            &&& entered.len() == body.blocks@.len()
            &&& sound_after(c, after)
            &&& body.start < after.len() ==> after[body.start as int] is Some
            &&& forall|l: int|
                0 <= l < after.len() && #[trigger] after[l] is Some ==> entered[l] is Some
                    && after[l]->0 == leaves(c, body, l, entered[l]->0) && is_settled(
                    c,
                    body,
                    l,
                    entered[l]->0,
                    after,
                )
            &&& forall|l: int, i: int|
                #![trigger after[l], body.blocks@[l].successors@[i]]
                0 <= l < after.len() && after[l] is Some && !after[l]->0.unreachable && 0 <= i
                    < body.blocks@[l].successors@.len() && body.blocks@[l].successors@[i]
                    < after.len() ==> after[body.blocks@[l].successors@[i] as int] is Some
        }),
{
    let first = first_progress(body);
    let nothing: Seq<Option<AbstractStateView>> = Seq::new(body.blocks@.len(), |i: int| None);
    assert(first.worklist[0] == body.start);
    assert(first.worklist.contains(body.start));
    assert(in_step(c, body, first, nothing));
    lemma_run_keeps(c, body, first, steps, nothing);
    let last = run_spec(c, body, first, steps)->0;
    assert(is_visited(last, body.start));
    assert forall|l: int, i: int|
        #![trigger last.after[l], body.blocks@[l].successors@[i]]
        0 <= l < last.after.len() && last.after[l] is Some && !last.after[l]->0.unreachable && 0
            <= i < body.blocks@[l].successors@.len() && body.blocks@[l].successors@[i]
            < last.after.len() implies last.after[body.blocks@[l].successors@[i] as int] is Some by {
        assert(is_visited(last, body.blocks@[l].successors@[i]));
    }
}

/// An analysis that ends within a number of steps gives the same with more.
pub proof fn more_steps_change_nothing(c: Ctx, body: Body, p: Progress, steps: nat, more: nat)
    requires
        steps <= more,
        run_spec(c, body, p, steps) is Some,
    ensures
        run_spec(c, body, p, more) == run_spec(c, body, p, steps),
    decreases steps,
{
    if p.worklist.len() > 0 {
        more_steps_change_nothing(
            c,
            body,
            step_spec(c, body, p),
            (steps - 1) as nat,
            (more - 1) as nat,
        );
    }
}

} // verus!
