//! Programs: which functions are analyzed, how calls are followed, and what is reported of all.

use crate::ast::{
    Block, Body, Command, CommandKind, Exp, Function, FunctionBody, FunctionKey, ModuleCall,
    Program, UnannotatedExp,
};
use crate::laws::expressions::is_part;
use crate::laws::scopes::{lies_under, paths_lie_under_by_component};
use crate::report::{normalized, SecurityFindingView};
use crate::scope::starts_with_spec;
use crate::summaries::ReturnSummaryView;
use crate::transfer::callgraph::{
    blocks_callees, calls, command_callees, commands_callees, exp_callees, exps_callees,
    function_callees, reachable, reachable_is_least_closed, resolve_spec,
};
use crate::transfer::context::AnalysisMode;
use crate::transfer::engine::analyze_spec;
use crate::transfer::program::{
    allowed_all, allowed_spec, kept_spec, seeds_all, summary_of_values, whole_program_job, Job,
};
use vstd::prelude::*;

verus! {

/// Whether a function is the one that a key names.
pub open spec fn is_named(f: Function, key: FunctionKey) -> bool {
    f.key.module.address == key.module.address && f.key.module.name@ == key.module.name@
        && f.key.name@ == key.name@
}

/// A call goes to the first analyzed function that its key names, and to none where there is none.
pub proof fn calls_go_to_the_function_they_name(
    fs: Seq<Function>,
    chosen: Seq<bool>,
    key: FunctionKey,
    i: int,
)
    requires
        chosen.len() == fs.len(),
        fs.len() < usize::MAX,
    ensures
        resolve_spec(fs, chosen, key, 0) == Some(i as usize) && 0 <= i < fs.len() <==> 0 <= i
            < fs.len() && chosen[i] && is_named(fs[i], key) && forall|k: int|
            0 <= k < i ==> !(#[trigger] chosen[k] && is_named(fs[k], key)),
        resolve_spec(fs, chosen, key, 0) is None <==> forall|k: int|
            0 <= k < fs.len() ==> !(#[trigger] chosen[k] && is_named(fs[k], key)),
{
    lemma_resolve(fs, chosen, key, 0);
}

proof fn lemma_resolve(fs: Seq<Function>, chosen: Seq<bool>, key: FunctionKey, from: nat)
    requires
        chosen.len() == fs.len(),
        fs.len() < usize::MAX,
        from <= fs.len(),
    ensures
        match resolve_spec(fs, chosen, key, from) {
            Some(i) => from <= i < fs.len() && chosen[i as int] && is_named(fs[i as int], key)
                && forall|k: int|
                from <= k < i ==> !(#[trigger] chosen[k] && is_named(fs[k], key)),
            None => forall|k: int|
                from <= k < fs.len() ==> !(#[trigger] chosen[k] && is_named(fs[k], key)),
        },
    decreases fs.len() - from,
{
    if from < fs.len() && !(chosen[from as int] && is_named(fs[from as int], key)) {
        lemma_resolve(fs, chosen, key, from + 1);
    }
}

proof fn lemma_listed_callees(
    fs: Seq<Function>,
    chosen: Seq<bool>,
    es: Seq<Exp>,
    n: nat,
    j: usize,
)
    requires
        n <= es.len(),
    ensures
        exps_callees(fs, chosen, es, n).contains(j) <==> exists|i: int|
            0 <= i < n && exp_callees(fs, chosen, #[trigger] es[i]).contains(j),
    decreases n,
{
    if n > 0 {
        lemma_listed_callees(fs, chosen, es, (n - 1) as nat, j);
        if exp_callees(fs, chosen, es[n - 1]).contains(j) {
            assert(0 <= n - 1 < n && exp_callees(fs, chosen, es[n - 1]).contains(j));
        }
    }
}

/// Whether an expression is a call that goes to this function.
pub open spec fn is_call_to(fs: Seq<Function>, chosen: Seq<bool>, e: Exp, j: usize) -> bool {
    e.value is ModuleCall && resolve_spec(fs, chosen, e.value->ModuleCall_0.callee, 0) == Some(j)
}

/// The functions that an expression calls are the one that it is a call to, and those that its parts
/// call.
pub proof fn expressions_call_what_their_parts_call(
    fs: Seq<Function>,
    chosen: Seq<bool>,
    e: Exp,
    j: usize,
)
    ensures
        exp_callees(fs, chosen, e).contains(j) <==> is_call_to(fs, chosen, e, j) || exists|
            part: Exp,
        | #[trigger]
            is_part(part, e) && exp_callees(fs, chosen, part).contains(j),
{
    let list = match e.value {
        UnannotatedExp::Multiple(values) => values@,
        UnannotatedExp::Vector(values, _) => values@,
        UnannotatedExp::Pack(values, _) => values@,
        UnannotatedExp::PackVariant(values, _) => values@,
        UnannotatedExp::ModuleCall(call) => call.arguments@,
        _ => Seq::empty(),
    };
    lemma_listed_callees(fs, chosen, list, list.len(), j);
    if exists|i: int| 0 <= i < list.len() && exp_callees(fs, chosen, #[trigger] list[i]).contains(j) {
        let i = choose|i: int|
            0 <= i < list.len() && exp_callees(fs, chosen, #[trigger] list[i]).contains(j);
        assert(list.contains(list[i]));
        assert(is_part(list[i], e));
    }
    if exists|part: Exp| #[trigger] is_part(part, e) && exp_callees(fs, chosen, part).contains(j) {
        let part = choose|part: Exp| #[trigger]
            is_part(part, e) && exp_callees(fs, chosen, part).contains(j);
        if list.contains(part) {
            let i = choose|i: int| 0 <= i < list.len() && list[i] == part;
            assert(exp_callees(fs, chosen, list[i]).contains(j));
        }
    }
    match e.value {
        UnannotatedExp::Freeze(inner)
        | UnannotatedExp::Dereference(inner)
        | UnannotatedExp::Not(inner)
        | UnannotatedExp::Cast(inner, _)
        | UnannotatedExp::Borrow(inner, _) => {
            assert(is_part(*inner, e));
        },
        UnannotatedExp::BinopExp(lhs, _, rhs) => {
            assert(is_part(*lhs, e));
            assert(is_part(*rhs, e));
        },
        _ => {},
    }
}

/// Whether a command computes an expression.
pub open spec fn computes(command: Command, e: Exp) -> bool {
    match command.value {
        CommandKind::Assign(_, exp) => e == exp,
        CommandKind::Mutate(target, value) => e == target || e == value,
        CommandKind::Abort(exp)
        | CommandKind::Return(exp)
        | CommandKind::IgnoreAndPop(exp)
        | CommandKind::JumpIf(exp, _, _)
        | CommandKind::VariantSwitch(exp) => e == exp,
        _ => false,
    }
}

/// Whether an expression is computed somewhere in a body.
pub open spec fn is_computed_in(body: Body, b: int, k: int, e: Exp) -> bool {
    0 <= b < body.blocks@.len() && 0 <= k < body.blocks@[b].commands@.len() && computes(
        body.blocks@[b].commands@[k],
        e,
    )
}

proof fn lemma_command_callees(fs: Seq<Function>, chosen: Seq<bool>, command: Command, j: usize)
    ensures
        command_callees(fs, chosen, command).contains(j) <==> exists|e: Exp| #[trigger]
            computes(command, e) && exp_callees(fs, chosen, e).contains(j),
{
    match command.value {
        CommandKind::Assign(_, exp)
        | CommandKind::Abort(exp)
        | CommandKind::Return(exp)
        | CommandKind::IgnoreAndPop(exp)
        | CommandKind::JumpIf(exp, _, _)
        | CommandKind::VariantSwitch(exp) => {
            assert(computes(command, exp));
        },
        CommandKind::Mutate(target, value) => {
            assert(computes(command, target));
            assert(computes(command, value));
        },
        _ => {},
    }
}

proof fn lemma_commands_callees(
    fs: Seq<Function>,
    chosen: Seq<bool>,
    commands: Seq<Command>,
    n: nat,
    j: usize,
)
    requires
        n <= commands.len(),
    ensures
        commands_callees(fs, chosen, commands, n).contains(j) <==> exists|k: int|
            0 <= k < n && command_callees(fs, chosen, #[trigger] commands[k]).contains(j),
    decreases n,
{
    if n > 0 {
        lemma_commands_callees(fs, chosen, commands, (n - 1) as nat, j);
        if command_callees(fs, chosen, commands[n - 1]).contains(j) {
            assert(0 <= n - 1 < n && command_callees(fs, chosen, commands[n - 1]).contains(j));
        }
    }
}

/// Whether a block calls a function.
spec fn block_calls(fs: Seq<Function>, chosen: Seq<bool>, block: Block, j: usize) -> bool {
    commands_callees(fs, chosen, block.commands@, block.commands@.len()).contains(j)
}

proof fn lemma_blocks_callees(
    fs: Seq<Function>,
    chosen: Seq<bool>,
    blocks: Seq<Block>,
    n: nat,
    j: usize,
)
    requires
        n <= blocks.len(),
    ensures
        blocks_callees(fs, chosen, blocks, n).contains(j) <==> exists|b: int|
            0 <= b < n && block_calls(fs, chosen, #[trigger] blocks[b], j),
    decreases n,
{
    if n > 0 {
        lemma_blocks_callees(fs, chosen, blocks, (n - 1) as nat, j);
        if block_calls(fs, chosen, blocks[n - 1], j) {
            assert(0 <= n - 1 < n && block_calls(fs, chosen, blocks[n - 1], j));
        }
    }
}

/// A function calls what the expressions in its body call, and a native one nothing.
pub proof fn functions_call_what_their_bodies_call(
    fs: Seq<Function>,
    chosen: Seq<bool>,
    f: Function,
    j: usize,
)
    ensures
        f.body is Native ==> !function_callees(fs, chosen, f).contains(j),
        f.body is Defined ==> (function_callees(fs, chosen, f).contains(j) <==> exists|
            b: int,
            k: int,
            e: Exp,
        | #[trigger]
            is_computed_in(f.body->Defined_0, b, k, e) && exp_callees(fs, chosen, e).contains(j)),
{
    if let FunctionBody::Defined(body) = f.body {
        let blocks = body.blocks@;
        lemma_blocks_callees(fs, chosen, blocks, blocks.len(), j);
        if function_callees(fs, chosen, f).contains(j) {
            let b = choose|b: int|
                0 <= b < blocks.len() && block_calls(fs, chosen, #[trigger] blocks[b], j);
            let commands = blocks[b].commands@;
            lemma_commands_callees(fs, chosen, commands, commands.len(), j);
            let k = choose|k: int|
                0 <= k < commands.len() && command_callees(
                    fs,
                    chosen,
                    #[trigger] commands[k],
                ).contains(j);
            lemma_command_callees(fs, chosen, commands[k], j);
            let e = choose|e: Exp| #[trigger]
                computes(commands[k], e) && exp_callees(fs, chosen, e).contains(j);
            assert(is_computed_in(body, b, k, e));
        }
        if exists|b: int, k: int, e: Exp| #[trigger]
            is_computed_in(body, b, k, e) && exp_callees(fs, chosen, e).contains(j) {
            let (b, k, e) = choose|b: int, k: int, e: Exp| #[trigger]
                is_computed_in(body, b, k, e) && exp_callees(fs, chosen, e).contains(j);
            let commands = blocks[b].commands@;
            lemma_command_callees(fs, chosen, commands[k], j);
            lemma_commands_callees(fs, chosen, commands, commands.len(), j);
            assert(command_callees(fs, chosen, commands[k]).contains(j));
            assert(block_calls(fs, chosen, blocks[b], j));
        }
    }
}

/// Whether a function lies under one of the roots, as far as both are known.
pub open spec fn may_lie_under(f: Function, roots: Option<Seq<Seq<Seq<char>>>>) -> bool {
    f.source_path is None || roots is None || exists|r: int|
        0 <= r < roots->0.len() && lies_under(f.source_path->0@, #[trigger] roots->0[r])
}

/// Whether a function is known to lie under one of the roots.
pub open spec fn surely_lies_under(f: Function, roots: Option<Seq<Seq<Seq<char>>>>) -> bool {
    f.source_path is Some && roots is Some && may_lie_under(f, roots)
}

proof fn lemma_under(f: Function, roots: Option<Seq<Seq<Seq<char>>>>)
    ensures
        allowed_spec(f, roots) <==> may_lie_under(f, roots),
{
    if f.source_path is Some && roots is Some {
        let path = f.source_path->0@;
        assert forall|r: int| 0 <= r < roots->0.len() implies (
        starts_with_spec(path, #[trigger] roots->0[r]) <==> lies_under(
            path,
            roots->0[r],
        )) by {
            paths_lie_under_by_component(path, roots->0[r]);
        }
        if may_lie_under(f, roots) {
            let r = choose|r: int|
                0 <= r < roots->0.len() && lies_under(path, #[trigger] roots->0[r]);
            assert(starts_with_spec(path, roots->0[r]));
        }
        if allowed_spec(f, roots) {
            let r = choose|r: int|
                0 <= r < roots->0.len() && starts_with_spec(
                    path,
                    #[trigger] roots->0[r],
                );
            assert(lies_under(path, roots->0[r]));
        }
    }
}

/// A function outside the scope is never analyzed. One in the scope is where no function of it lies
/// in the root package; where some do, these are, and each function of the scope that an analyzed
/// one calls; nothing else is.
pub proof fn analyzed_functions_are_in_scope_and_called(
    fs: Seq<Function>,
    allowed: Option<Seq<Seq<Seq<char>>>>,
    roots: Option<Seq<Seq<Seq<char>>>>,
    chosen: Seq<bool>,
    i: int,
)
    requires
        0 <= i < fs.len(),
        chosen.len() == fs.len(),
        forall|k: int|
            0 <= k < fs.len() ==> (#[trigger] chosen[k] <==> may_lie_under(fs[k], allowed)),
    ensures
        ({
            let seeded = exists|k: int|
                0 <= k < fs.len() && may_lie_under(#[trigger] fs[k], allowed)
                    && surely_lies_under(fs[k], roots);
            let kept = kept_spec(fs, allowed, roots, i);
            &&& !may_lie_under(fs[i], allowed) ==> !kept
            &&& may_lie_under(fs[i], allowed) && !seeded ==> kept
            &&& may_lie_under(fs[i], allowed) && surely_lies_under(fs[i], roots) ==> kept
            &&& forall|j: int|
                0 <= j < fs.len() && seeded && kept && #[trigger] calls(fs, chosen, i, j)
                    && chosen[j] ==> kept_spec(fs, allowed, roots, j)
        }),
{
    let all = allowed_all(fs, allowed);
    let seeds = seeds_all(fs, allowed, roots);
    assert forall|k: int| 0 <= k < fs.len() implies all[k] == chosen[k] && (seeds[k] <==>
        may_lie_under(#[trigger] fs[k], allowed) && surely_lies_under(fs[k], roots)) by {
        lemma_under(fs[k], allowed);
        lemma_under(fs[k], roots);
        assert(chosen[k] <==> may_lie_under(fs[k], allowed));
    }
    assert(all =~= chosen);
    assert(seeds[i] <==> may_lie_under(fs[i], allowed) && surely_lies_under(fs[i], roots));
    if seeds.contains(true) {
        let k = choose|k: int| 0 <= k < seeds.len() && seeds[k] == true;
        assert(may_lie_under(fs[k], allowed) && surely_lies_under(fs[k], roots));
    }
    if exists|k: int|
        0 <= k < fs.len() && may_lie_under(#[trigger] fs[k], allowed) && surely_lies_under(
            fs[k],
            roots,
        ) {
        let k = choose|k: int|
            0 <= k < fs.len() && may_lie_under(#[trigger] fs[k], allowed) && surely_lies_under(
                fs[k],
                roots,
            );
        assert(seeds[k]);
    }
    let everything = Seq::new(fs.len(), |k: int| true);
    assert forall|j: int| 0 <= j < fs.len() implies (seeds[i] ==> reachable(fs, chosen, seeds, i))
        && (reachable(fs, chosen, seeds, i) && #[trigger] calls(fs, chosen, i, j) ==> reachable(
        fs,
        chosen,
        seeds,
        j,
    )) by {
        reachable_is_least_closed(
            fs,
            chosen,
            seeds,
            everything,
            i,
            j,
        );
        reachable_is_least_closed(
            fs,
            chosen,
            seeds,
            everything,
            i,
            i,
        );
    }
    reachable_is_least_closed(fs, chosen, seeds, everything, i, i);
}

/// What is known of functions after a number of rounds.
pub open spec fn after_rounds(job: Job, rounds: nat, steps: nat) -> Option<
    Seq<Seq<ReturnSummaryView>>,
>
    decreases rounds,
{
    if rounds == 0 {
        Some(Seq::new(job.functions.len(), |i: int| Seq::empty()))
    } else {
        match after_rounds(job, (rounds - 1) as nat, steps) {
            Some(before) => job.round_spec(before, job.functions.len(), steps),
            None => None,
        }
    }
}

proof fn lemma_rounds(
    job: Job,
    summaries: Seq<Seq<ReturnSummaryView>>,
    done: nat,
    rounds: nat,
    steps: nat,
)
    requires
        after_rounds(job, done, steps) == Some(summaries),
    ensures
        job.rounds_spec(summaries, rounds, steps) == after_rounds(job, done + rounds, steps),
    decreases rounds,
{
    if rounds > 0 {
        assert(after_rounds(job, done + 1, steps) == job.round_spec(
            summaries,
            job.functions.len(),
            steps,
        ));
        match job.round_spec(summaries, job.functions.len(), steps) {
            Some(next) => {
                if next == summaries {
                    lemma_settled(job, summaries, done, rounds, steps);
                } else {
                    lemma_rounds(job, next, done + 1, (rounds - 1) as nat, steps);
                }
            },
            None => {
                lemma_failed(job, done + 1, (rounds - 1) as nat, steps);
            },
        }
    }
}

proof fn lemma_settled(
    job: Job,
    summaries: Seq<Seq<ReturnSummaryView>>,
    done: nat,
    rounds: nat,
    steps: nat,
)
    requires
        after_rounds(job, done, steps) == Some(summaries),
        job.round_spec(summaries, job.functions.len(), steps) == Some(summaries),
    ensures
        after_rounds(job, done + rounds, steps) == Some(summaries),
    decreases rounds,
{
    if rounds > 0 {
        lemma_settled(job, summaries, done, (rounds - 1) as nat, steps);
    }
}

proof fn lemma_failed(job: Job, done: nat, rounds: nat, steps: nat)
    requires
        after_rounds(job, done, steps) is None,
    ensures
        after_rounds(job, done + rounds, steps) is None,
    decreases rounds,
{
    if rounds > 0 {
        lemma_failed(job, done, (rounds - 1) as nat, steps);
    }
}

/// What is known of functions is what six rounds give, starting from nothing.
pub proof fn summaries_are_those_of_six_rounds(job: Job, steps: nat)
    ensures
        job.summaries_spec(steps) == after_rounds(job, 6, steps),
{
    lemma_rounds(
        job,
        Seq::new(job.functions.len(), |i: int| Seq::empty()),
        0,
        6,
        steps,
    );
}

/// In a round each analyzed function is looked at with what the round before gave; what callers learn
/// of it is, for each value that it returns, the parameters that it depends on and its risks. Of a
/// function that is not analyzed nothing changes.
pub proof fn rounds_learn_from_the_round_before(
    job: Job,
    summaries: Seq<Seq<ReturnSummaryView>>,
    steps: nat,
    i: int,
    v: int,
)
    requires
        job.kept.len() == job.functions.len(),
        summaries.len() == job.functions.len(),
        job.round_spec(summaries, job.functions.len(), steps) is Some,
        0 <= i < job.functions.len(),
    ensures
        ({
            let next = job.round_spec(summaries, job.functions.len(), steps)->0;
            let seen = analyze_spec(job.ctx(i, summaries, AnalysisMode::Summary), steps);
            &&& next.len() == job.functions.len()
            &&& !job.kept[i] ==> next[i] == summaries[i]
            &&& job.kept[i] ==> {
                &&& seen is Some
                &&& next[i].len() == seen->0.returned.len()
                &&& 0 <= v < next[i].len() ==> next[i][v].parameter_dependencies
                    == seen->0.returned[v].parameter_dependencies && next[i][v].risky_origins
                    == seen->0.returned[v].risky_origins
            }
        }),
{
    lemma_round(job, summaries, job.functions.len(), steps, i);
}

proof fn lemma_round(
    job: Job,
    summaries: Seq<Seq<ReturnSummaryView>>,
    n: nat,
    steps: nat,
    i: int,
)
    requires
        n <= job.functions.len(),
        job.round_spec(summaries, n, steps) is Some,
        0 <= i < n,
    ensures
        ({
            let next = job.round_spec(summaries, n, steps)->0;
            let seen = analyze_spec(job.ctx(i, summaries, AnalysisMode::Summary), steps);
            &&& next.len() == n
            &&& !job.kept[i] ==> next[i] == summaries[i]
            &&& job.kept[i] ==> seen is Some && next[i] == summary_of_values(seen->0.returned)
        }),
    decreases n,
{
    if n > 1 {
        lemma_round(
            job,
            summaries,
            (n - 1) as nat,
            steps,
            if i < n - 1 {
                i
            } else {
                0
            },
        );
    } else {
        assert(job.round_spec(summaries, 0, steps)->0.len() == 0);
    }
}

proof fn lemma_reports(
    job: Job,
    summaries: Seq<Seq<ReturnSummaryView>>,
    n: nat,
    steps: nat,
    finding: SecurityFindingView,
)
    requires
        n <= job.functions.len(),
        job.reports_spec(summaries, n, steps) is Some,
    ensures
        job.reports_spec(summaries, n, steps)->0.contains(finding) <==> exists|i: int|
            0 <= i < n && #[trigger] is_reported_by(job, summaries, steps, i, finding),
        forall|i: int|
            0 <= i < n && #[trigger] job.kept[i] ==> analyze_spec(
                job.ctx(i, summaries, AnalysisMode::Findings),
                steps,
            ) is Some,
    decreases n,
{
    if n > 0 {
        lemma_reports(job, summaries, (n - 1) as nat, steps, finding);
        let before = job.reports_spec(summaries, (n - 1) as nat, steps)->0;
        let all = job.reports_spec(summaries, n, steps)->0;
        if job.kept[n - 1] {
            let more = analyze_spec(
                job.ctx(n - 1, summaries, AnalysisMode::Findings),
                steps,
            )->0.findings;
            assert(all == before + more);
            if before.contains(finding) {
                let k = choose|k: int| 0 <= k < before.len() && before[k] == finding;
                assert(all[k] == finding);
            }
            if more.contains(finding) {
                let k = choose|k: int| 0 <= k < more.len() && more[k] == finding;
                assert(all[before.len() + k] == finding);
                assert(is_reported_by(job, summaries, steps, n - 1, finding));
            }
            if all.contains(finding) && !before.contains(finding) {
                let k = choose|k: int| 0 <= k < all.len() && all[k] == finding;
                if k < before.len() {
                    assert(before[k] == finding);
                } else {
                    assert(more[k - before.len()] == finding);
                }
            }
        }
    }
}

/// Whether a function is analyzed and its analysis finds this.
pub open spec fn is_reported_by(
    job: Job,
    summaries: Seq<Seq<ReturnSummaryView>>,
    steps: nat,
    i: int,
    finding: SecurityFindingView,
) -> bool {
    job.kept[i] && analyze_spec(
        job.ctx(i, summaries, AnalysisMode::Findings),
        steps,
    )->0.findings.contains(finding)
}

/// What an analysis gives is what remains, once normalized, of what is found in the analyzed
/// functions, with what is known of functions at the end; there is nothing where one of the analyses
/// does not end.
pub proof fn analyses_give_what_their_functions_find(job: Job, steps: nat, finding: SecurityFindingView)
    requires
        job.findings_spec(steps) is Some,
    ensures
        after_rounds(job, 6, steps) is Some,
        exists|found: Seq<SecurityFindingView>|
            job.findings_spec(steps) == Some(#[trigger] normalized(found)) && (found.contains(
                finding,
            ) <==> exists|i: int|
                0 <= i < job.functions.len() && #[trigger] is_reported_by(
                    job,
                    after_rounds(job, 6, steps)->0,
                    steps,
                    i,
                    finding,
                )),
{
    summaries_are_those_of_six_rounds(job, steps);
    let summaries = after_rounds(job, 6, steps)->0;
    let found = job.reports_spec(summaries, job.functions.len(), steps)->0;
    lemma_reports(job, summaries, job.functions.len(), steps, finding);
    assert(job.findings_spec(steps) == Some(normalized(found)));
}

/// Of a whole program every function is analyzed, in fast mode.
pub proof fn whole_programs_are_analyzed_fast(program: Program, i: int)
    requires
        0 <= i < program.functions@.len(),
    ensures
        whole_program_job(program).functions == program.functions@,
        whole_program_job(program).kept.len() == program.functions@.len(),
        whole_program_job(program).kept[i],
        whole_program_job(program).math_mode is Fast,
{
}

} // verus!
