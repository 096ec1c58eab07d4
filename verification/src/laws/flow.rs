//! Flow: in what state blocks are entered, and in what order they are run.

use crate::ast::Body;
use crate::domain::state::AbstractStateView;
use crate::transfer::command::{commands_spec, initial_state_spec};
use crate::transfer::constraints::apply_condition_spec;
use crate::transfer::context::Ctx;
use crate::transfer::engine::{
    analyze_spec, block_in_spec, first_progress, merged_in_spec, refine_edge_spec, run_spec,
    step_spec, Progress,
};
use vstd::prelude::*;

verus! {

/// On the way to a block that a branch leads to where its condition holds, the condition is known to
/// hold; on the way to the other it is known not to; and any other way changes nothing.
pub proof fn branches_tell_their_condition(
    c: Ctx,
    body: Body,
    from: usize,
    to: usize,
    st: AbstractStateView,
)
    requires
        from < body.blocks@.len(),
        body.blocks@[from as int].commands@.len() > 0,
    ensures
        ({
            let last = body.blocks@[from as int].commands@.last().value;
            let next = refine_edge_spec(c, body, from, to, st);
            &&& last is JumpIf && to == last->JumpIf_1 ==> next == apply_condition_spec(
                c,
                last->JumpIf_0,
                true,
                st,
            )
            &&& last is JumpIf && to != last->JumpIf_1 && to == last->JumpIf_2 ==> next
                == apply_condition_spec(c, last->JumpIf_0, false, st)
            &&& !(last is JumpIf) || to != last->JumpIf_1 && to != last->JumpIf_2 ==> next == st
        }),
{
}

/// Whether a block was run and leads to another.
pub open spec fn leads_in(
    body: Body,
    label: usize,
    after: Seq<Option<AbstractStateView>>,
    k: int,
) -> bool {
    let predecessors = body.blocks@[label as int].predecessors@;
    0 <= k < predecessors.len() && predecessors[k] < after.len() && after[predecessors[k] as int]
        is Some
}

proof fn lemma_merged(
    c: Ctx,
    body: Body,
    label: usize,
    n: nat,
    after: Seq<Option<AbstractStateView>>,
    k: int,
)
    requires
        n <= body.blocks@[label as int].predecessors@.len(),
    ensures
        (forall|j: int| 0 <= j < n ==> !#[trigger] leads_in(body, label, after, j))
            ==> merged_in_spec(c, body, label, n, after) is None,
        0 <= k < n && leads_in(body, label, after, k) && (forall|j: int|
            0 <= j < n && j != k ==> !#[trigger] leads_in(body, label, after, j))
            ==> merged_in_spec(c, body, label, n, after) == Some(
            refine_edge_spec(
                c,
                body,
                body.blocks@[label as int].predecessors@[k],
                label,
                after[body.blocks@[label as int].predecessors@[k] as int]->0,
            ),
        ),
    decreases n,
{
    if n > 0 {
        lemma_merged(c, body, label, (n - 1) as nat, after, k);
        assert(leads_in(body, label, after, n - 1) <==> {
            let p = body.blocks@[label as int].predecessors@[n - 1];
            p < after.len() && after[p as int] is Some
        });
    }
}

/// A block is entered with what the one block that was run before it and leads to it passes on. The
/// first block is entered with the parameters of the function as long as none was run that leads to
/// it, and any other with nothing known.
pub proof fn blocks_are_entered_from_before(
    c: Ctx,
    body: Body,
    label: usize,
    after: Seq<Option<AbstractStateView>>,
    k: int,
)
    ensures
        ({
            let entry = block_in_spec(c, body, label, after);
            let predecessors = body.blocks@[label as int].predecessors@;
            let alone = forall|j: int| j != k ==> !#[trigger] leads_in(body, label, after, j);
            let none = forall|j: int| !#[trigger] leads_in(body, label, after, j);
            &&& leads_in(body, label, after, k) && alone ==> entry == refine_edge_spec(
                c,
                body,
                predecessors[k],
                label,
                after[predecessors[k] as int]->0,
            )
            &&& none && label == body.start ==> entry == initial_state_spec(c)
            &&& none && label != body.start ==> entry == AbstractStateView::new_spec()
        }),
{
    let n = body.blocks@[label as int].predecessors@.len();
    lemma_merged(c, body, label, n, after, k);
}

/// What two or more blocks pass on is joined, in the order of the blocks.
pub proof fn ways_into_a_block_are_joined(
    c: Ctx,
    body: Body,
    label: usize,
    n: nat,
    after: Seq<Option<AbstractStateView>>,
)
    requires
        n < body.blocks@[label as int].predecessors@.len(),
        leads_in(body, label, after, n as int),
        merged_in_spec(c, body, label, n, after) is Some,
    ensures
        ({
            let p = body.blocks@[label as int].predecessors@[n as int];
            merged_in_spec(c, body, label, n + 1, after) == Some(
                merged_in_spec(c, body, label, n, after)->0.join_spec(
                    refine_edge_spec(c, body, p, label, after[p as int]->0),
                ),
            )
        }),
{
}

/// Running a block leaves what its commands leave of the state it is entered in, unless no path leads
/// into it; where that is new, the blocks after it are run again, after those that are waiting.
pub proof fn running_a_block_goes_on_with_its_successors(c: Ctx, body: Body, p: Progress)
    requires
        p.worklist.len() > 0,
        p.worklist[0] < body.blocks@.len(),
        p.after.len() == body.blocks@.len(),
    ensures
        ({
            let label = p.worklist[0] as int;
            let block = body.blocks@[label];
            let entry = block_in_spec(c, body, p.worklist[0], p.after);
            let effect = commands_spec(
                c,
                block.commands@,
                block.commands@.len(),
                entry,
                p.returned,
            );
            let next = step_spec(c, body, p);
            let waiting = p.worklist.skip(1);
            &&& next.after.len() == p.after.len()
            &&& forall|k: int|
                0 <= k < p.after.len() && k != label ==> #[trigger] next.after[k] == p.after[k]
            &&& entry.unreachable ==> next.after[label] == Some(entry) && next.worklist == waiting
                && next.returned == p.returned && next.findings == p.findings
            &&& !entry.unreachable ==> {
                &&& next.after[label] == Some(effect.state)
                &&& next.returned == effect.returned
                &&& next.findings == p.findings + effect.findings
                &&& p.after[label] == Some(effect.state) ==> next.worklist == waiting
                &&& p.after[label] != Some(effect.state) ==> next.worklist == waiting
                    + block.successors@
            }
        }),
{
    reveal(step_spec);
    assert(p.worklist.subrange(1, p.worklist.len() as int) =~= p.worklist.skip(1));
}

/// An analysis starts with the first block, runs until no block is waiting, and gives up after the
/// given number of steps; a native function returns and reports nothing.
pub proof fn analyses_run_until_nothing_waits(c: Ctx, body: Body, p: Progress, steps: nat)
    ensures
        p.worklist.len() == 0 ==> run_spec(c, body, p, steps) == Some(p),
        p.worklist.len() > 0 && steps == 0 ==> run_spec(c, body, p, steps) is None,
        p.worklist.len() > 0 && steps > 0 ==> run_spec(c, body, p, steps) == run_spec(
            c,
            body,
            step_spec(c, body, p),
            (steps - 1) as nat,
        ),
        first_progress(body).worklist == seq![body.start],
        first_progress(body).returned.len() == 0,
        first_progress(body).findings.len() == 0,
        first_progress(body).after.len() == body.blocks@.len(),
        forall|k: int|
            0 <= k < body.blocks@.len() ==> #[trigger] first_progress(body).after[k] is None,
        c.function.body is Native ==> analyze_spec(c, steps) is Some && analyze_spec(
            c,
            steps,
        )->0.returned.len() == 0 && analyze_spec(c, steps)->0.findings.len() == 0,
{
}

} // verus!
