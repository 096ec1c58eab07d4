//! The work list: from the blocks of a function to what it returns and what is reported.

use crate::ast::{Block, Body, Command, CommandKind, FunctionBody};
use crate::cfg::build_cfg;
use crate::domain::state::{AbstractState, AbstractStateView};
use crate::domain::value::{ValueState, ValueStateView};
use crate::model::{opt_view, views, Dup, SameView};
use crate::report::{SecurityFinding, SecurityFindingView};
use crate::transfer::command::{commands_spec, initial_state_spec};
use crate::transfer::constraints::apply_condition_spec;
use crate::transfer::context::{Ctx, FunctionAnalyzer};
use std::collections::VecDeque;
use vstd::prelude::*;

verus! {

/// What the interpretation of a function gives.
#[derive(Clone, Debug, PartialEq, Eq)]
pub struct AnalysisOutcome {
    pub returned: Vec<ValueState>,
    pub findings: Vec<SecurityFinding>,
}

#[verifier::ext_equal]
pub struct OutcomeView {
    pub returned: Seq<ValueStateView>,
    pub findings: Seq<SecurityFindingView>,
}

impl View for AnalysisOutcome {
    type V = OutcomeView;

    open spec fn view(&self) -> OutcomeView {
        OutcomeView { returned: views(self.returned@), findings: views(self.findings@) }
    }
}

/// The states that may be there, as views.
pub open spec fn opt_views(states: Seq<Option<AbstractState>>) -> Seq<Option<AbstractStateView>> {
    Seq::new(states.len(), |i: int| opt_view(states[i]))
}

/// How far the interpretation of a function has come.
#[verifier::ext_equal]
pub struct Progress {
    /// The state after each block that was run.
    pub after: Seq<Option<AbstractStateView>>,
    /// The labels of the blocks that are still to be run.
    pub worklist: Seq<usize>,
    pub returned: Seq<ValueStateView>,
    pub findings: Seq<SecurityFindingView>,
}

/// The state on the way from one block to another.
pub open spec fn refine_edge_spec(
    c: Ctx,
    body: Body,
    from: usize,
    to: usize,
    st: AbstractStateView,
) -> AbstractStateView {
    if from < body.blocks@.len() && body.blocks@[from as int].commands@.len() > 0 {
        match body.blocks@[from as int].commands@.last().value {
            CommandKind::JumpIf(cond, if_true, if_false) => if to == if_true {
                apply_condition_spec(c, cond, true, st)
            } else if to == if_false {
                apply_condition_spec(c, cond, false, st)
            } else {
                st
            },
            _ => st,
        }
    } else {
        st
    }
}

/// The join of the states on the ways from the first `n` predecessors, as far as they were run.
pub open spec fn merged_in_spec(
    c: Ctx,
    body: Body,
    label: usize,
    n: nat,
    after: Seq<Option<AbstractStateView>>,
) -> Option<AbstractStateView>
    decreases n,
{
    let predecessors = body.blocks@[label as int].predecessors@;
    if n == 0 || n > predecessors.len() {
        None
    } else {
        let before = merged_in_spec(c, body, label, (n - 1) as nat, after);
        let p = predecessors[n - 1];
        if p < after.len() && after[p as int] is Some {
            let refined = refine_edge_spec(c, body, p, label, after[p as int]->0);
            match before {
                Some(existing) => Some(existing.join_spec(refined)),
                None => Some(refined),
            }
        } else {
            before
        }
    }
}

/// The state at the start of a block.
pub open spec fn block_in_spec(
    c: Ctx,
    body: Body,
    label: usize,
    after: Seq<Option<AbstractStateView>>,
) -> AbstractStateView {
    let predecessors = body.blocks@[label as int].predecessors@;
    match merged_in_spec(c, body, label, predecessors.len(), after) {
        Some(merged) => merged,
        None => if label == body.start {
            initial_state_spec(c)
        } else {
            AbstractStateView::new_spec()
        },
    }
}

/// The interpretation after the first block of the work list is run. A label that names no block
/// is dropped.
#[verifier::opaque]
pub open spec fn step_spec(c: Ctx, body: Body, p: Progress) -> Progress {
    let label = p.worklist[0];
    let rest = p.worklist.subrange(1, p.worklist.len() as int);
    if label >= body.blocks@.len() || label >= p.after.len() {
        Progress { worklist: rest, ..p }
    } else {
        let block = body.blocks@[label as int];
        let state = block_in_spec(c, body, label, p.after);
        if state.unreachable {
            Progress { after: p.after.update(label as int, Some(state)), worklist: rest, ..p }
        } else {
            let effect = commands_spec(
                c,
                block.commands@,
                block.commands@.len(),
                state,
                p.returned,
            );
            let changed = p.after[label as int] != Some(effect.state);
            Progress {
                after: p.after.update(label as int, Some(effect.state)),
                worklist: if changed {
                    rest + block.successors@
                } else {
                    rest
                },
                returned: effect.returned,
                findings: p.findings + effect.findings,
            }
        }
    }
}

/// The interpretation when the work list is empty; none where that takes more than `steps` steps.
pub open spec fn run_spec(c: Ctx, body: Body, p: Progress, steps: nat) -> Option<Progress>
    decreases steps,
{
    if p.worklist.len() == 0 {
        Some(p)
    } else if steps == 0 {
        None
    } else {
        run_spec(c, body, step_spec(c, body, p), (steps - 1) as nat)
    }
}

/// The interpretation before any block is run.
pub open spec fn first_progress(body: Body) -> Progress {
    Progress {
        after: Seq::new(body.blocks@.len(), |i: int| None),
        worklist: seq![body.start],
        returned: Seq::empty(),
        findings: Seq::empty(),
    }
}

/// What the interpretation of a function gives; none where it takes more than `steps` steps.
pub open spec fn analyze_spec(c: Ctx, steps: nat) -> Option<OutcomeView> {
    match c.function.body {
        FunctionBody::Native => Some(
            OutcomeView { returned: Seq::empty(), findings: Seq::empty() },
        ),
        FunctionBody::Defined(body) => match run_spec(c, body, first_progress(body), steps) {
            Some(p) => Some(OutcomeView { returned: p.returned, findings: p.findings }),
            None => None,
        },
    }
}

impl<'a> FunctionAnalyzer<'a> {
    pub fn refine_edge(&self, body: &Body, from: usize, to: usize, state: &AbstractState) -> (r:
        AbstractState)
        ensures
            r@ == refine_edge_spec(self@, *body, from, to, state@),
    {
        let mut next: AbstractState = state.dup();
        if from >= body.blocks.len() {
            return next;
        }
        let commands: &Vec<Command> = &body.blocks[from].commands;
        if commands.len() == 0 {
            return next;
        }
        match &commands[commands.len() - 1].value {
            CommandKind::JumpIf(cond, if_true, if_false) => {
                if to == *if_true {
                    self.apply_condition(cond, true, &mut next);
                } else if to == *if_false {
                    self.apply_condition(cond, false, &mut next);
                }
            },
            _ => {},
        }
        next
    }

    pub fn block_in(&self, body: &Body, label: usize, after: &Vec<Option<AbstractState>>) -> (r:
        AbstractState)
        requires
            label < body.blocks@.len(),
        ensures
            r@ == block_in_spec(self@, *body, label, opt_views(after@)),
    {
        let predecessors: &Vec<usize> = &body.blocks[label].predecessors;
        let ghost states = opt_views(after@);
        let mut merged: Option<AbstractState> = None;
        let mut i: usize = 0;
        while i < predecessors.len()
            invariant
                label < body.blocks@.len(),
                predecessors@ == body.blocks@[label as int].predecessors@,
                i <= predecessors@.len(),
                states == opt_views(after@),
                opt_view(merged) == merged_in_spec(self@, *body, label, i as nat, states),
            decreases predecessors@.len() - i,
        {
            let from: usize = predecessors[i];
            if from < after.len() {
                if let Some(state) = &after[from] {
                    let refined: AbstractState = self.refine_edge(body, from, label, state);
                    merged = match merged {
                        Some(existing) => Some(existing.join(&refined)),
                        None => Some(refined),
                    };
                }
            }
            i = i + 1;
        }
        match merged {
            Some(merged) => merged,
            None => if label == body.start {
                self.initial_state()
            } else {
                AbstractState::new()
            },
        }
    }

    /// Runs the block that `label` names.
    fn step(
        &self,
        body: &Body,
        label: usize,
        after: &mut Vec<Option<AbstractState>>,
        worklist: &mut VecDeque<usize>,
        outcome: &mut AnalysisOutcome,
    )
        requires
            old(after)@.len() == body.blocks@.len(),
        ensures
            final(after)@.len() == body.blocks@.len(),
            ({
                let before = Progress {
                    after: opt_views(old(after)@),
                    worklist: seq![label] + old(worklist)@,
                    returned: old(outcome)@.returned,
                    findings: old(outcome)@.findings,
                };
                step_spec(self@, *body, before) == (Progress {
                    after: opt_views(final(after)@),
                    worklist: final(worklist)@,
                    returned: final(outcome)@.returned,
                    findings: final(outcome)@.findings,
                })
            }),
    {
        reveal(step_spec);
        let ghost list = seq![label] + worklist@;
        let ghost states = opt_views(after@);
        assert(list.subrange(1, list.len() as int) =~= worklist@);
        if label >= body.blocks.len() {
            return;
        }
        let mut state: AbstractState = self.block_in(body, label, after);
        if state.unreachable {
            let ghost reached = state@;
            after.set(label, Some(state));
            assert(opt_views(after@) =~= states.update(label as int, Some(reached)));
            return;
        }
        let block: &Block = &body.blocks[label];
        self.execute_block(
            &block.commands,
            &mut state,
            &mut outcome.returned,
            &mut outcome.findings,
        );
        let changed: bool = match &after[label] {
            Some(known) => !known.same(&state),
            None => true,
        };
        assert(changed == (states[label as int] != Some(state@)));
        let ghost reached = state@;
        after.set(label, Some(state));
        assert(opt_views(after@) =~= states.update(label as int, Some(reached)));
        if changed {
            let ghost rest = worklist@;
            let mut i: usize = 0;
            while i < block.successors.len()
                invariant
                    i <= block.successors@.len(),
                    worklist@ =~= rest + block.successors@.take(i as int),
                decreases block.successors@.len() - i,
            {
                worklist.push_back(block.successors[i]);
                i = i + 1;
            }
            assert(block.successors@.take(i as int) =~= block.successors@);
        }
    }

    /// What the interpretation of the function gives; none where it takes more than `max_steps`
    /// runs of a block.
    pub fn analyze(&self, max_steps: u64) -> (r: Option<AnalysisOutcome>)
        ensures
            opt_view(r) == analyze_spec(self@, max_steps as nat),
    {
        let mut outcome = AnalysisOutcome { returned: Vec::new(), findings: Vec::new() };
        assert(outcome@ =~= OutcomeView { returned: Seq::empty(), findings: Seq::empty() });
        let Some(body) = build_cfg(self.function) else {
            return Some(outcome);
        };
        let mut after: Vec<Option<AbstractState>> = Vec::new();
        while after.len() < body.blocks.len()
            invariant
                after@.len() <= body.blocks@.len(),
                forall|i: int| 0 <= i < after@.len() ==> #[trigger] after@[i] is None,
            decreases body.blocks@.len() - after@.len(),
        {
            after.push(None);
        }
        let mut worklist: VecDeque<usize> = VecDeque::new();
        worklist.push_back(body.start);
        let ghost first = first_progress(*body);
        assert(opt_views(after@) =~= first.after);
        assert(worklist@ =~= first.worklist);
        let mut steps: u64 = max_steps;
        loop
            invariant
                after@.len() == body.blocks@.len(),
                run_spec(self@, *body, first, max_steps as nat) == run_spec(
                    self@,
                    *body,
                    Progress {
                        after: opt_views(after@),
                        worklist: worklist@,
                        returned: outcome@.returned,
                        findings: outcome@.findings,
                    },
                    steps as nat,
                ),
                first == first_progress(*body),
                self@.function.body == FunctionBody::Defined(*body),
            decreases steps,
        {
            let ghost list = worklist@;
            let Some(label) = worklist.pop_front() else {
                return Some(outcome);
            };
            if steps == 0 {
                return None;
            }
            assert(list =~= seq![label] + worklist@);
            self.step(body, label, &mut after, &mut worklist, &mut outcome);
            steps = steps - 1;
        }
    }
}

} // verus!
