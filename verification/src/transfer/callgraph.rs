//! Which functions call which.

use crate::ast::{
    same_key, same_key_spec, Block, Command, CommandKind, Exp, Function, FunctionBody, FunctionKey,
    Program, UnannotatedExp,
};
use crate::domain::index_set::IndexSet;
use crate::transfer::describe::{lemma_arguments_smaller, lemma_elements_smaller};
use vstd::prelude::*;

verus! {

/// The first chosen function of this key from `from` on.
pub open spec fn resolve_spec(
    functions: Seq<Function>,
    chosen: Seq<bool>,
    key: FunctionKey,
    from: nat,
) -> Option<usize>
    decreases functions.len() - from,
{
    if from >= functions.len() || from >= chosen.len() {
        None
    } else if chosen[from as int] && same_key_spec(functions[from as int].key, key) {
        Some(from as usize)
    } else {
        resolve_spec(functions, chosen, key, from + 1)
    }
}

pub fn resolve(program: &Program, chosen: &Vec<bool>, key: &FunctionKey) -> (r: Option<usize>)
    ensures
        r == resolve_spec(program.functions@, chosen@, *key, 0),
        r is Some ==> r->0 < program.functions@.len() && r->0 < chosen@.len() && r->0 < usize::MAX,
{
    let mut i: usize = 0;
    while i < program.functions.len() && i < chosen.len()
        invariant
            i <= program.functions@.len(),
            i <= chosen@.len(),
            resolve_spec(program.functions@, chosen@, *key, 0) == resolve_spec(
                program.functions@,
                chosen@,
                *key,
                i as nat,
            ),
        decreases program.functions@.len() - i,
    {
        if chosen[i] && same_key(&program.functions[i].key, key) {
            return Some(i);
        }
        i = i + 1;
    }
    None
}

/// The set of one function, where a key names one.
pub open spec fn resolved_set(fs: Seq<Function>, chosen: Seq<bool>, key: FunctionKey) -> Set<
    usize,
> {
    match resolve_spec(fs, chosen, key, 0) {
        Some(i) => Set::empty().insert(i),
        None => Set::empty(),
    }
}

/// The chosen functions that an expression calls.
pub open spec fn exp_callees(fs: Seq<Function>, chosen: Seq<bool>, e: Exp) -> Set<usize>
    decreases e, 0nat,
{
    match e.value {
        UnannotatedExp::ModuleCall(call) => resolved_set(fs, chosen, call.callee).union(
            exps_callees(fs, chosen, call.arguments@, call.arguments@.len()),
        ),
        UnannotatedExp::Freeze(inner) => exp_callees(fs, chosen, *inner),
        UnannotatedExp::Dereference(inner) => exp_callees(fs, chosen, *inner),
        UnannotatedExp::Not(inner) => exp_callees(fs, chosen, *inner),
        UnannotatedExp::Cast(inner, _) => exp_callees(fs, chosen, *inner),
        UnannotatedExp::Borrow(inner, _) => exp_callees(fs, chosen, *inner),
        UnannotatedExp::BinopExp(lhs, _, rhs) => exp_callees(fs, chosen, *lhs).union(
            exp_callees(fs, chosen, *rhs),
        ),
        UnannotatedExp::Pack(fields, _) => exps_callees(fs, chosen, fields@, fields@.len()),
        UnannotatedExp::PackVariant(fields, _) => exps_callees(fs, chosen, fields@, fields@.len()),
        UnannotatedExp::Multiple(values) => exps_callees(fs, chosen, values@, values@.len()),
        UnannotatedExp::Vector(values, _) => exps_callees(fs, chosen, values@, values@.len()),
        _ => Set::empty(),
    }
}

/// The chosen functions that the first `n` expressions call.
pub open spec fn exps_callees(fs: Seq<Function>, chosen: Seq<bool>, es: Seq<Exp>, n: nat) -> Set<
    usize,
>
    decreases es, n,
{
    if n == 0 || n > es.len() {
        Set::empty()
    } else {
        exps_callees(fs, chosen, es, (n - 1) as nat).union(exp_callees(fs, chosen, es[n - 1]))
    }
}

/// The chosen functions that a command calls.
pub open spec fn command_callees(fs: Seq<Function>, chosen: Seq<bool>, command: Command) -> Set<
    usize,
> {
    match command.value {
        CommandKind::Assign(_, exp) => exp_callees(fs, chosen, exp),
        CommandKind::Mutate(target, value) => exp_callees(fs, chosen, target).union(
            exp_callees(fs, chosen, value),
        ),
        CommandKind::Abort(exp) => exp_callees(fs, chosen, exp),
        CommandKind::Return(exp) => exp_callees(fs, chosen, exp),
        CommandKind::IgnoreAndPop(exp) => exp_callees(fs, chosen, exp),
        CommandKind::JumpIf(cond, _, _) => exp_callees(fs, chosen, cond),
        CommandKind::VariantSwitch(subject) => exp_callees(fs, chosen, subject),
        CommandKind::Jump | CommandKind::Break | CommandKind::Continue => Set::empty(),
    }
}

/// The chosen functions that the first `n` commands call.
pub open spec fn commands_callees(
    fs: Seq<Function>,
    chosen: Seq<bool>,
    commands: Seq<Command>,
    n: nat,
) -> Set<usize>
    decreases n,
{
    if n == 0 || n > commands.len() {
        Set::empty()
    } else {
        commands_callees(fs, chosen, commands, (n - 1) as nat).union(
            command_callees(fs, chosen, commands[n - 1]),
        )
    }
}

/// The chosen functions that the first `n` blocks call.
pub open spec fn blocks_callees(
    fs: Seq<Function>,
    chosen: Seq<bool>,
    blocks: Seq<Block>,
    n: nat,
) -> Set<usize>
    decreases n,
{
    if n == 0 || n > blocks.len() {
        Set::empty()
    } else {
        blocks_callees(fs, chosen, blocks, (n - 1) as nat).union(
            commands_callees(
                fs,
                chosen,
                blocks[n - 1].commands@,
                blocks[n - 1].commands@.len(),
            ),
        )
    }
}

/// The chosen functions that a function calls.
pub open spec fn function_callees(fs: Seq<Function>, chosen: Seq<bool>, function: Function) -> Set<
    usize,
> {
    match function.body {
        FunctionBody::Defined(body) => blocks_callees(fs, chosen, body.blocks@, body.blocks@.len()),
        FunctionBody::Native => Set::empty(),
    }
}

pub fn collect_calls_from_exp(
    program: &Program,
    chosen: &Vec<bool>,
    e: &Exp,
    calls: &mut IndexSet,
)
    ensures
        final(calls)@ == old(calls)@.union(exp_callees(program.functions@, chosen@, *e)),
    decreases *e,
{
    let ghost start = calls@;
    assert(start.union(Set::<usize>::empty()) =~= start);
    proof {
        lemma_elements_smaller(*e);
    }
    match &e.value {
        UnannotatedExp::ModuleCall(call) => {
            proof {
                lemma_arguments_smaller(*e);
            }
            if let Some(i) = resolve(program, chosen, &call.callee) {
                calls.insert(i);
            }
            assert(calls@ =~= start.union(
                resolved_set(program.functions@, chosen@, call.callee),
            ));
            collect_calls_from_exps(program, chosen, &call.arguments, calls);
            assert(calls@ =~= start.union(exp_callees(program.functions@, chosen@, *e)));
        },
        UnannotatedExp::Freeze(inner) => collect_calls_from_exp(program, chosen, inner, calls),
        UnannotatedExp::Dereference(inner) => collect_calls_from_exp(program, chosen, inner, calls),
        UnannotatedExp::Not(inner) => collect_calls_from_exp(program, chosen, inner, calls),
        UnannotatedExp::Cast(inner, _) => collect_calls_from_exp(program, chosen, inner, calls),
        UnannotatedExp::Borrow(inner, _) => collect_calls_from_exp(program, chosen, inner, calls),
        UnannotatedExp::BinopExp(lhs, _, rhs) => {
            collect_calls_from_exp(program, chosen, lhs, calls);
            collect_calls_from_exp(program, chosen, rhs, calls);
            assert(calls@ =~= start.union(exp_callees(program.functions@, chosen@, *e)));
        },
        UnannotatedExp::Pack(fields, _) => collect_calls_from_exps(program, chosen, fields, calls),
        UnannotatedExp::PackVariant(fields, _) => collect_calls_from_exps(
            program,
            chosen,
            fields,
            calls,
        ),
        UnannotatedExp::Multiple(values) => collect_calls_from_exps(program, chosen, values, calls),
        UnannotatedExp::Vector(values, _) => collect_calls_from_exps(
            program,
            chosen,
            values,
            calls,
        ),
        _ => {},
    }
}

fn collect_calls_from_exps(
    program: &Program,
    chosen: &Vec<bool>,
    es: &Vec<Exp>,
    calls: &mut IndexSet,
)
    ensures
        final(calls)@ == old(calls)@.union(
            exps_callees(program.functions@, chosen@, es@, es@.len()),
        ),
    decreases es@,
{
    let ghost start = calls@;
    let mut i: usize = 0;
    assert(start.union(Set::<usize>::empty()) =~= start);
    while i < es.len()
        invariant
            i <= es@.len(),
            calls@ == start.union(exps_callees(program.functions@, chosen@, es@, i as nat)),
        decreases es@.len() - i,
    {
        assert(decreases_to!(es@ => es@[i as int]));
        collect_calls_from_exp(program, chosen, &es[i], calls);
        i = i + 1;
        assert(calls@ =~= start.union(exps_callees(program.functions@, chosen@, es@, i as nat)));
    }
}

pub fn collect_calls_from_command(
    program: &Program,
    chosen: &Vec<bool>,
    command: &Command,
    calls: &mut IndexSet,
)
    ensures
        final(calls)@ == old(calls)@.union(
            command_callees(program.functions@, chosen@, *command),
        ),
{
    let ghost start = calls@;
    assert(start.union(Set::<usize>::empty()) =~= start);
    match &command.value {
        CommandKind::Assign(_, exp) => collect_calls_from_exp(program, chosen, exp, calls),
        CommandKind::Mutate(target, value) => {
            collect_calls_from_exp(program, chosen, target, calls);
            collect_calls_from_exp(program, chosen, value, calls);
            assert(calls@ =~= start.union(
                command_callees(program.functions@, chosen@, *command),
            ));
        },
        CommandKind::Abort(exp) => collect_calls_from_exp(program, chosen, exp, calls),
        CommandKind::Return(exp) => collect_calls_from_exp(program, chosen, exp, calls),
        CommandKind::IgnoreAndPop(exp) => collect_calls_from_exp(program, chosen, exp, calls),
        CommandKind::JumpIf(cond, _, _) => collect_calls_from_exp(program, chosen, cond, calls),
        CommandKind::VariantSwitch(subject) => collect_calls_from_exp(
            program,
            chosen,
            subject,
            calls,
        ),
        CommandKind::Jump | CommandKind::Break | CommandKind::Continue => {},
    }
}

fn collect_calls_from_commands(
    program: &Program,
    chosen: &Vec<bool>,
    commands: &Vec<Command>,
    calls: &mut IndexSet,
)
    ensures
        final(calls)@ == old(calls)@.union(
            commands_callees(program.functions@, chosen@, commands@, commands@.len()),
        ),
{
    let ghost start = calls@;
    let mut i: usize = 0;
    assert(start.union(Set::<usize>::empty()) =~= start);
    while i < commands.len()
        invariant
            i <= commands@.len(),
            calls@ == start.union(
                commands_callees(program.functions@, chosen@, commands@, i as nat),
            ),
        decreases commands@.len() - i,
    {
        collect_calls_from_command(program, chosen, &commands[i], calls);
        i = i + 1;
        assert(calls@ =~= start.union(
            commands_callees(program.functions@, chosen@, commands@, i as nat),
        ));
    }
}

pub fn called_functions(program: &Program, chosen: &Vec<bool>, function: &Function) -> (r: IndexSet)
    ensures
        r@ == function_callees(program.functions@, chosen@, *function),
{
    let mut calls: IndexSet = IndexSet::new();
    if let FunctionBody::Defined(body) = &function.body {
        let mut i: usize = 0;
        while i < body.blocks.len()
            invariant
                i <= body.blocks@.len(),
                calls@ == blocks_callees(program.functions@, chosen@, body.blocks@, i as nat),
            decreases body.blocks@.len() - i,
        {
            collect_calls_from_commands(program, chosen, &body.blocks[i].commands, &mut calls);
            i = i + 1;
        }
    }
    calls
}

/// Whether one function calls another directly.
pub open spec fn calls(fs: Seq<Function>, chosen: Seq<bool>, i: int, j: int) -> bool {
    0 <= i < fs.len() && 0 <= j < fs.len() && function_callees(fs, chosen, fs[i]).contains(
        j as usize,
    )
}

/// Whether a function is a seed, or is called from one through at most `n` calls.
pub open spec fn reached_in(
    fs: Seq<Function>,
    chosen: Seq<bool>,
    seeds: Seq<bool>,
    n: nat,
    j: int,
) -> bool
    decreases n,
{
    if n == 0 {
        0 <= j < seeds.len() && j < fs.len() && seeds[j]
    } else {
        reached_in(fs, chosen, seeds, (n - 1) as nat, j) || exists|i: int|
            #![trigger calls(fs, chosen, i, j)]
            reached_in(fs, chosen, seeds, (n - 1) as nat, i) && calls(fs, chosen, i, j)
    }
}

/// Whether a function is called from a seed, directly or through others.
pub open spec fn reachable(
    fs: Seq<Function>,
    chosen: Seq<bool>,
    seeds: Seq<bool>,
    j: int,
) -> bool {
    exists|n: nat| #[trigger] reached_in(fs, chosen, seeds, n, j)
}

proof fn lemma_one_more_call(
    fs: Seq<Function>,
    chosen: Seq<bool>,
    seeds: Seq<bool>,
    i: int,
    j: int,
)
    requires
        reachable(fs, chosen, seeds, i),
        calls(fs, chosen, i, j),
    ensures
        reachable(fs, chosen, seeds, j),
{
    let n = choose|n: nat| #[trigger] reached_in(fs, chosen, seeds, n, i);
    assert(reached_in(fs, chosen, seeds, n + 1, j));
}

/// A set that holds the seeds and is closed under calls holds every reachable function.
proof fn lemma_closed_holds_reachable(
    fs: Seq<Function>,
    chosen: Seq<bool>,
    seeds: Seq<bool>,
    marked: Seq<bool>,
    n: nat,
    j: int,
)
    requires
        marked.len() == fs.len(),
        forall|k: int| 0 <= k < seeds.len() && k < fs.len() && seeds[k] ==> #[trigger] marked[k],
        forall|a: int, b: int|
            #![trigger calls(fs, chosen, a, b)]
            calls(fs, chosen, a, b) && marked[a] ==> marked[b],
        reached_in(fs, chosen, seeds, n, j),
    ensures
        0 <= j < marked.len(),
        marked[j],
    decreases n,
{
    if n > 0 {
        if reached_in(fs, chosen, seeds, (n - 1) as nat, j) {
            lemma_closed_holds_reachable(fs, chosen, seeds, marked, (n - 1) as nat, j);
        } else {
            let i = choose|i: int|
                #![trigger calls(fs, chosen, i, j)]
                reached_in(fs, chosen, seeds, (n - 1) as nat, i) && calls(fs, chosen, i, j);
            lemma_closed_holds_reachable(fs, chosen, seeds, marked, (n - 1) as nat, i);
        }
    }
}

/// How many are not done.
spec fn not_done(done: Seq<bool>) -> nat
    decreases done.len(),
{
    if done.len() == 0 {
        0
    } else {
        not_done(done.drop_last()) + if done.last() {
            0nat
        } else {
            1nat
        }
    }
}

proof fn lemma_not_done(done: Seq<bool>, i: int)
    requires
        0 <= i < done.len(),
        !done[i],
    ensures
        not_done(done.update(i, true)) + 1 == not_done(done),
    decreases done.len(),
{
    let next = done.update(i, true);
    if i == done.len() - 1 {
        assert(next.drop_last() =~= done.drop_last());
    } else {
        lemma_not_done(done.drop_last(), i);
        assert(next.drop_last() =~= done.drop_last().update(i, true));
    }
}

fn first_open(marked: &Vec<bool>, done: &Vec<bool>) -> (r: Option<usize>)
    requires
        marked@.len() == done@.len(),
    ensures
        match r {
            Some(i) => i < marked@.len() && marked@[i as int] && !done@[i as int],
            None => forall|i: int| 0 <= i < marked@.len() && #[trigger] marked@[i] ==> done@[i],
        },
{
    let mut i: usize = 0;
    while i < marked.len()
        invariant
            i <= marked@.len(),
            marked@.len() == done@.len(),
            forall|j: int| 0 <= j < i && #[trigger] marked@[j] ==> done@[j],
        decreases marked@.len() - i,
    {
        if marked[i] && !done[i] {
            return Some(i);
        }
        i = i + 1;
    }
    None
}

fn mark_all(marked: &mut Vec<bool>, calls: &IndexSet)
    ensures
        final(marked)@.len() == old(marked)@.len(),
        forall|j: int|
            0 <= j < final(marked)@.len() ==> #[trigger] final(marked)@[j] == (old(marked)@[j]
                || calls@.contains(j as usize)),
{
    let ghost start = marked@;
    let mut i: usize = 0;
    while i < marked.len()
        invariant
            i <= marked@.len(),
            marked@.len() == start.len(),
            forall|j: int|
                0 <= j < i ==> #[trigger] marked@[j] == (start[j] || calls@.contains(j as usize)),
            forall|j: int| i <= j < marked@.len() ==> #[trigger] marked@[j] == start[j],
        decreases marked@.len() - i,
    {
        if calls.contains(i) {
            marked.set(i, true);
        }
        i = i + 1;
    }
}

/// The functions that are called from the seeds, directly or through others, and the seeds.
pub fn reachable_functions(program: &Program, chosen: &Vec<bool>, seeds: &Vec<bool>) -> (r: Vec<
    bool,
>)
    requires
        seeds@.len() == program.functions@.len(),
    ensures
        r@.len() == program.functions@.len(),
        forall|j: int|
            0 <= j < r@.len() ==> #[trigger] r@[j] == reachable(
                program.functions@,
                chosen@,
                seeds@,
                j,
            ),
{
    let ghost fs = program.functions@;
    let mut marked: Vec<bool> = Vec::new();
    let mut i: usize = 0;
    while i < seeds.len()
        invariant
            i <= seeds@.len(),
            marked@ =~= seeds@.take(i as int),
        decreases seeds@.len() - i,
    {
        marked.push(seeds[i]);
        i = i + 1;
    }
    assert(marked@ =~= seeds@);
    let mut done: Vec<bool> = none_of(program.functions.len());
    assert forall|j: int| 0 <= j < fs.len() && #[trigger] marked@[j] implies reachable(
        fs,
        chosen@,
        seeds@,
        j,
    ) by {
        assert(reached_in(fs, chosen@, seeds@, 0, j));
    }
    loop
        invariant
            fs == program.functions@,
            marked@.len() == fs.len(),
            done@.len() == fs.len(),
            seeds@.len() == fs.len(),
            forall|k: int| 0 <= k < fs.len() && seeds@[k] ==> #[trigger] marked@[k],
            forall|j: int|
                0 <= j < fs.len() && #[trigger] marked@[j] ==> reachable(fs, chosen@, seeds@, j),
            forall|a: int, b: int|
                #![trigger calls(fs, chosen@, a, b)]
                calls(fs, chosen@, a, b) && done@[a] ==> marked@[b],
        ensures
            forall|j: int| 0 <= j < marked@.len() && #[trigger] marked@[j] ==> done@[j],
        decreases not_done(done@),
    {
        let Some(next) = first_open(&marked, &done) else {
            break;
        };
        let called: IndexSet = called_functions(program, chosen, &program.functions[next]);
        let ghost before = marked@;
        mark_all(&mut marked, &called);
        proof {
            assert forall|j: int| 0 <= j < fs.len() && #[trigger] marked@[j] implies reachable(
                fs,
                chosen@,
                seeds@,
                j,
            ) by {
                if !before[j] {
                    assert(calls(fs, chosen@, next as int, j));
                    lemma_one_more_call(fs, chosen@, seeds@, next as int, j);
                }
            }
            lemma_not_done(done@, next as int);
        }
        done.set(next, true);
    }
    proof {
        assert forall|j: int| 0 <= j < marked@.len() implies #[trigger] marked@[j] == reachable(
            fs,
            chosen@,
            seeds@,
            j,
        ) by {
            if reachable(fs, chosen@, seeds@, j) {
                let n = choose|n: nat| #[trigger] reached_in(fs, chosen@, seeds@, n, j);
                assert forall|a: int, b: int|
                    #![trigger calls(fs, chosen@, a, b)]
                    calls(fs, chosen@, a, b) && marked@[a] implies marked@[b] by {
                    assert(done@[a]);
                }
                lemma_closed_holds_reachable(fs, chosen@, seeds@, marked@, n, j);
            }
        }
    }
    marked
}

fn none_of(n: usize) -> (r: Vec<bool>)
    ensures
        r@.len() == n,
        forall|i: int| 0 <= i < n ==> !#[trigger] r@[i],
{
    let mut r: Vec<bool> = Vec::new();
    let mut i: usize = 0;
    while i < n
        invariant
            i <= n,
            r@.len() == i,
            forall|j: int| 0 <= j < i ==> !#[trigger] r@[j],
        decreases n - i,
    {
        r.push(false);
        i = i + 1;
    }
    r
}

/// The reachable functions are the least set that holds the seeds and is closed under calls.
pub proof fn reachable_is_least_closed(
    fs: Seq<Function>,
    chosen: Seq<bool>,
    seeds: Seq<bool>,
    other: Seq<bool>,
    i: int,
    j: int,
)
    requires
        other.len() == fs.len(),
        forall|k: int| 0 <= k < seeds.len() && k < fs.len() && seeds[k] ==> #[trigger] other[k],
        forall|a: int, b: int|
            #![trigger calls(fs, chosen, a, b)]
            calls(fs, chosen, a, b) && other[a] ==> other[b],
    ensures
        0 <= j < seeds.len() && j < fs.len() && seeds[j] ==> reachable(fs, chosen, seeds, j),
        reachable(fs, chosen, seeds, i) && calls(fs, chosen, i, j) ==> reachable(
            fs,
            chosen,
            seeds,
            j,
        ),
        reachable(fs, chosen, seeds, j) ==> 0 <= j < other.len() && other[j],
{
    if 0 <= j < seeds.len() && j < fs.len() && seeds[j] {
        assert(reached_in(fs, chosen, seeds, 0, j));
    }
    if reachable(fs, chosen, seeds, i) && calls(fs, chosen, i, j) {
        lemma_one_more_call(fs, chosen, seeds, i, j);
    }
    if reachable(fs, chosen, seeds, j) {
        let n = choose|n: nat| #[trigger] reached_in(fs, chosen, seeds, n, j);
        lemma_closed_holds_reachable(fs, chosen, seeds, other, n, j);
    }
}

} // verus!
