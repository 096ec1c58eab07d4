//! Programs: which functions are analyzed, what is known of them, and what is reported.

use crate::ast::{Function, Program, SourcePath};
use crate::domain::value::{ValueState, ValueStateView};
use crate::model::{dup_all, same_all, views, Dup};
use crate::options::SecurityMathMode;
use crate::report::{
    collect_diagnostics, normalize_findings, normalized, Diagnostic, SecurityFinding,
    SecurityFindingView,
};
use crate::scope::{in_scope_spec, path_in_scope};
use crate::summaries::{FunctionSummary, ReturnSummary, ReturnSummaryView};
use crate::transfer::callgraph::{reachable, reachable_functions};
use crate::transfer::context::{AnalysisMode, Ctx, FunctionAnalyzer};
use crate::transfer::engine::analyze_spec;
use vstd::prelude::*;

verus! {

/// The roots of a scope, as views.
pub open spec fn root_views(roots: Option<&Vec<SourcePath>>) -> Option<Seq<Seq<Seq<char>>>> {
    match roots {
        Some(roots) => Some(views(roots@)),
        None => None,
    }
}

/// Whether a function is in the scope: where its file or the scope is not known, it is.
pub open spec fn allowed_spec(f: Function, allowed: Option<Seq<Seq<Seq<char>>>>) -> bool {
    match (f.source_path, allowed) {
        (Some(path), Some(roots)) => in_scope_spec(path@, roots),
        _ => true,
    }
}

/// Whether a function in the scope is one that the analysis starts from.
pub open spec fn seed_spec(
    f: Function,
    allowed: Option<Seq<Seq<Seq<char>>>>,
    roots: Option<Seq<Seq<Seq<char>>>>,
) -> bool {
    allowed_spec(f, allowed) && match (f.source_path, roots) {
        (Some(path), Some(roots)) => in_scope_spec(path@, roots),
        _ => false,
    }
}

pub open spec fn allowed_all(fs: Seq<Function>, allowed: Option<Seq<Seq<Seq<char>>>>) -> Seq<bool> {
    Seq::new(fs.len(), |i: int| allowed_spec(fs[i], allowed))
}

pub open spec fn seeds_all(
    fs: Seq<Function>,
    allowed: Option<Seq<Seq<Seq<char>>>>,
    roots: Option<Seq<Seq<Seq<char>>>>,
) -> Seq<bool> {
    Seq::new(fs.len(), |i: int| seed_spec(fs[i], allowed, roots))
}

/// Whether a function is analyzed: it is in the scope and, where there are functions to start
/// from, it is called from one of them, directly or through others.
pub open spec fn kept_spec(
    fs: Seq<Function>,
    allowed: Option<Seq<Seq<Seq<char>>>>,
    roots: Option<Seq<Seq<Seq<char>>>>,
    i: int,
) -> bool {
    let chosen = allowed_all(fs, allowed);
    let seeds = seeds_all(fs, allowed, roots);
    chosen[i] && (seeds.contains(true) ==> reachable(fs, chosen, seeds, i))
}

/// What callers need to know of a function that returns these values.
pub open spec fn summary_of_values(values: Seq<ValueStateView>) -> Seq<ReturnSummaryView> {
    Seq::new(
        values.len(),
        |i: int|
            ReturnSummaryView {
                parameter_dependencies: values[i].parameter_dependencies,
                risky_origins: values[i].risky_origins,
            },
    )
}

/// The program, the choice of functions and the mode of an analysis.
pub struct Job {
    pub functions: Seq<Function>,
    pub kept: Seq<bool>,
    pub math_mode: SecurityMathMode,
}

impl Job {
    /// What the interpretation of one function can see.
    pub open spec fn ctx(
        self,
        i: int,
        summaries: Seq<Seq<ReturnSummaryView>>,
        mode: AnalysisMode,
    ) -> Ctx {
        Ctx {
            function: self.functions[i],
            functions: self.functions,
            kept: self.kept,
            summaries,
            mode,
            math_mode: self.math_mode,
        }
    }

    /// The first `n` summaries after one more round, in which every function is interpreted with
    /// the summaries of the round before; none where an interpretation takes too many steps.
    pub open spec fn round_spec(
        self,
        summaries: Seq<Seq<ReturnSummaryView>>,
        n: nat,
        steps: nat,
    ) -> Option<Seq<Seq<ReturnSummaryView>>>
        decreases n,
    {
        if n == 0 || n > self.functions.len() {
            Some(Seq::empty())
        } else {
            match self.round_spec(summaries, (n - 1) as nat, steps) {
                None => None,
                Some(before) => if self.kept[n - 1] {
                    match analyze_spec(
                        self.ctx(n - 1, summaries, AnalysisMode::Summary),
                        steps,
                    ) {
                        Some(outcome) => Some(before.push(summary_of_values(outcome.returned))),
                        None => None,
                    }
                } else {
                    Some(before.push(summaries[n - 1]))
                },
            }
        }
    }

    /// The summaries after rounds until nothing changes, but at most `rounds` of them.
    pub open spec fn rounds_spec(
        self,
        summaries: Seq<Seq<ReturnSummaryView>>,
        rounds: nat,
        steps: nat,
    ) -> Option<Seq<Seq<ReturnSummaryView>>>
        decreases rounds,
    {
        if rounds == 0 {
            Some(summaries)
        } else {
            match self.round_spec(summaries, self.functions.len(), steps) {
                Some(next) => if next == summaries {
                    Some(next)
                } else {
                    self.rounds_spec(next, (rounds - 1) as nat, steps)
                },
                None => None,
            }
        }
    }

    /// The summaries of all functions.
    pub open spec fn summaries_spec(self, steps: nat) -> Option<Seq<Seq<ReturnSummaryView>>> {
        self.rounds_spec(
            Seq::new(self.functions.len(), |i: int| Seq::empty()),
            6,
            steps,
        )
    }

    /// What the first `n` functions report.
    pub open spec fn reports_spec(
        self,
        summaries: Seq<Seq<ReturnSummaryView>>,
        n: nat,
        steps: nat,
    ) -> Option<Seq<SecurityFindingView>>
        decreases n,
    {
        if n == 0 || n > self.functions.len() {
            Some(Seq::empty())
        } else {
            match self.reports_spec(summaries, (n - 1) as nat, steps) {
                None => None,
                Some(before) => if self.kept[n - 1] {
                    match analyze_spec(
                        self.ctx(n - 1, summaries, AnalysisMode::Findings),
                        steps,
                    ) {
                        Some(outcome) => Some(before + outcome.findings),
                        None => None,
                    }
                } else {
                    Some(before)
                },
            }
        }
    }

    /// The findings of an analysis; none where an interpretation takes too many steps.
    pub open spec fn findings_spec(self, steps: nat) -> Option<Seq<SecurityFindingView>> {
        match self.summaries_spec(steps) {
            Some(summaries) => match self.reports_spec(summaries, self.functions.len(), steps) {
                Some(found) => Some(normalized(found)),
                None => None,
            },
            None => None,
        }
    }
}

/// The analyzer of a program.
pub struct ProgramAnalyzer<'a> {
    pub program: &'a Program,
    /// Which functions are analyzed, one flag for each function of the program.
    pub kept: Vec<bool>,
    pub math_mode: SecurityMathMode,
    pub smt_timeout_ms: u64,
}

fn summary_from(values: &Vec<ValueState>) -> (r: FunctionSummary)
    ensures
        r@ == summary_of_values(views(values@)),
{
    let ghost wanted = summary_of_values(views(values@));
    let mut summaries: Vec<ReturnSummary> = Vec::new();
    let mut i: usize = 0;
    while i < values.len()
        invariant
            i <= values@.len(),
            wanted == summary_of_values(views(values@)),
            views(summaries@) =~= wanted.take(i as int),
        decreases values@.len() - i,
    {
        let ghost start = summaries@;
        let summary = ReturnSummary {
            parameter_dependencies: values[i].parameter_dependencies.dup(),
            risky_origins: dup_all(&values[i].risky_origins),
        };
        summaries.push(summary);
        assert(views(summaries@) =~= views(start).push(summary@));
        i = i + 1;
    }
    let r = FunctionSummary { returns: summaries };
    assert(r@ =~= wanted);
    r
}

fn is_allowed(f: &Function, allowed: Option<&Vec<SourcePath>>) -> (r: bool)
    ensures
        r == allowed_spec(*f, root_views(allowed)),
{
    match (&f.source_path, allowed) {
        (Some(path), Some(roots)) => path_in_scope(path, roots),
        _ => true,
    }
}

impl<'a> ProgramAnalyzer<'a> {
    pub open spec fn job(self) -> Job {
        Job {
            functions: self.program.functions@,
            kept: self.kept@,
            math_mode: self.math_mode,
        }
    }

    /// Whether there is one flag for each function.
    pub open spec fn well_formed(self) -> bool {
        self.kept@.len() == self.program.functions@.len()
    }

    pub fn new(
        program: &'a Program,
        allowed_roots: Option<&Vec<SourcePath>>,
        root_roots: Option<&Vec<SourcePath>>,
        math_mode: SecurityMathMode,
        smt_timeout_ms: u64,
    ) -> (r: Self)
        ensures
            r.well_formed(),
            r.program == program,
            r.math_mode == math_mode,
            r.smt_timeout_ms == smt_timeout_ms,
            forall|i: int|
                0 <= i < program.functions@.len() ==> #[trigger] r.kept@[i] == kept_spec(
                    program.functions@,
                    root_views(allowed_roots),
                    root_views(root_roots),
                    i,
                ),
    {
        let ghost fs = program.functions@;
        let ghost allowed = root_views(allowed_roots);
        let ghost roots = root_views(root_roots);
        let mut chosen: Vec<bool> = Vec::new();
        let mut seeds: Vec<bool> = Vec::new();
        let mut any: bool = false;
        let mut i: usize = 0;
        while i < program.functions.len()
            invariant
                i <= program.functions@.len(),
                fs == program.functions@,
                allowed == root_views(allowed_roots),
                roots == root_views(root_roots),
                chosen@ =~= allowed_all(fs, allowed).take(i as int),
                seeds@ =~= seeds_all(fs, allowed, roots).take(i as int),
                any == seeds@.contains(true),
            decreases program.functions@.len() - i,
        {
            let f: &Function = &program.functions[i];
            let is_in: bool = is_allowed(f, allowed_roots);
            let seed: bool = is_in && match (&f.source_path, root_roots) {
                (Some(path), Some(roots)) => path_in_scope(path, roots),
                _ => false,
            };
            let ghost before = seeds@;
            chosen.push(is_in);
            seeds.push(seed);
            proof {
                assert(seeds@.contains(true) == (before.contains(true) || seed)) by {
                    if before.contains(true) {
                        let k = choose|k: int| 0 <= k < before.len() && before[k] == true;
                        assert(seeds@[k] == true);
                    }
                    assert(seeds@[before.len() as int] == seed);
                    if seeds@.contains(true) {
                        let k = choose|k: int| 0 <= k < seeds@.len() && seeds@[k] == true;
                        if k < before.len() {
                            assert(before[k] == true);
                        }
                    }
                }
            }
            any = any || seed;
            i = i + 1;
        }
        assert(chosen@ =~= allowed_all(fs, allowed));
        assert(seeds@ =~= seeds_all(fs, allowed, roots));
        if any {
            let reached: Vec<bool> = reachable_functions(program, &chosen, &seeds);
            let mut kept: Vec<bool> = Vec::new();
            let mut i: usize = 0;
            while i < chosen.len()
                invariant
                    i <= chosen@.len(),
                    chosen@.len() == reached@.len(),
                    kept@.len() == i,
                    forall|j: int|
                        0 <= j < i ==> #[trigger] kept@[j] == (chosen@[j] && reached@[j]),
                decreases chosen@.len() - i,
            {
                kept.push(chosen[i] && reached[i]);
                i = i + 1;
            }
            ProgramAnalyzer { program, kept, math_mode, smt_timeout_ms }
        } else {
            ProgramAnalyzer { program, kept: chosen, math_mode, smt_timeout_ms }
        }
    }

    fn analyzer<'b>(
        &'b self,
        i: usize,
        summaries: &'b Vec<FunctionSummary>,
        mode: AnalysisMode,
    ) -> (r: FunctionAnalyzer<'b>)
        requires
            i < self.program.functions@.len(),
        ensures
            r@ == self.job().ctx(i as int, views(summaries@), mode),
    {
        FunctionAnalyzer {
            function: &self.program.functions[i],
            program: self.program,
            kept: &self.kept,
            summaries,
            mode,
            math_mode: self.math_mode,
        }
    }

    fn round(&self, summaries: &Vec<FunctionSummary>, max_steps: u64) -> (r: Option<
        Vec<FunctionSummary>,
    >)
        requires
            self.well_formed(),
            summaries@.len() == self.program.functions@.len(),
        ensures
            match r {
                Some(next) => self.job().round_spec(
                    views(summaries@),
                    self.program.functions@.len(),
                    max_steps as nat,
                ) == Some(views(next@)) && next@.len() == summaries@.len(),
                None => self.job().round_spec(
                    views(summaries@),
                    self.program.functions@.len(),
                    max_steps as nat,
                ) is None,
            },
    {
        let ghost job = self.job();
        let ghost known = views(summaries@);
        let ghost steps = max_steps as nat;
        let mut next: Vec<FunctionSummary> = Vec::new();
        let mut i: usize = 0;
        assert(views(next@) =~= Seq::<Seq<ReturnSummaryView>>::empty());
        while i < self.program.functions.len()
            invariant
                self.well_formed(),
                summaries@.len() == self.program.functions@.len(),
                i <= self.program.functions@.len(),
                next@.len() == i,
                job == self.job(),
                known == views(summaries@),
                steps == max_steps as nat,
                job.round_spec(known, i as nat, steps) == Some(views(next@)),
            decreases self.program.functions@.len() - i,
        {
            let ghost start = next@;
            if self.kept[i] {
                let analyzer = self.analyzer(i, summaries, AnalysisMode::Summary);
                match analyzer.analyze(max_steps) {
                    Some(outcome) => {
                        let summary: FunctionSummary = summary_from(&outcome.returned);
                        next.push(summary);
                        assert(views(next@) =~= views(start).push(summary@));
                    },
                    None => {
                        proof {
                            lemma_round_fails(job, known, i as nat, steps);
                        }
                        return None;
                    },
                }
            } else {
                next.push(summaries[i].dup());
                assert(views(next@) =~= views(start).push(known[i as int]));
            }
            i = i + 1;
        }
        Some(next)
    }

    /// What callers need to know of each function; none where an interpretation takes more than
    /// `max_steps` runs of a block.
    pub fn compute_summaries(&self, max_steps: u64) -> (r: Option<Vec<FunctionSummary>>)
        requires
            self.well_formed(),
        ensures
            match r {
                Some(summaries) => self.job().summaries_spec(max_steps as nat) == Some(
                    views(summaries@),
                ),
                None => self.job().summaries_spec(max_steps as nat) is None,
            },
    {
        let ghost job = self.job();
        let ghost steps = max_steps as nat;
        let ghost total = self.program.functions@.len();
        let mut summaries: Vec<FunctionSummary> = Vec::new();
        while summaries.len() < self.program.functions.len()
            invariant
                summaries@.len() <= self.program.functions@.len(),
                forall|i: int|
                    0 <= i < summaries@.len() ==> (#[trigger] summaries@[i])@ == Seq::<
                        ReturnSummaryView,
                    >::empty(),
            decreases self.program.functions@.len() - summaries@.len(),
        {
            summaries.push(FunctionSummary::empty());
        }
        assert(views(summaries@) =~= Seq::new(total, |i: int| Seq::<ReturnSummaryView>::empty()));
        let mut rounds: u8 = 6;
        while rounds > 0
            invariant
                self.well_formed(),
                job == self.job(),
                steps == max_steps as nat,
                summaries@.len() == self.program.functions@.len(),
                job.summaries_spec(steps) == job.rounds_spec(
                    views(summaries@),
                    rounds as nat,
                    steps,
                ),
            decreases rounds,
        {
            match self.round(&summaries, max_steps) {
                Some(next) => {
                    if same_all(&next, &summaries) {
                        return Some(next);
                    }
                    summaries = next;
                },
                None => {
                    return None;
                },
            }
            rounds = rounds - 1;
        }
        Some(summaries)
    }

    /// The findings of the analysis, normalized; none where an interpretation takes more than
    /// `max_steps` runs of a block.
    pub fn run_findings(&self, max_steps: u64) -> (r: Option<Vec<SecurityFinding>>)
        requires
            self.well_formed(),
        ensures
            match r {
                Some(findings) => self.job().findings_spec(max_steps as nat) == Some(
                    views(findings@),
                ),
                None => self.job().findings_spec(max_steps as nat) is None,
            },
    {
        let ghost job = self.job();
        let ghost steps = max_steps as nat;
        let Some(summaries) = self.compute_summaries(max_steps) else {
            return None;
        };
        let ghost known = views(summaries@);
        let mut findings: Vec<SecurityFinding> = Vec::new();
        let mut i: usize = 0;
        assert(views(findings@) =~= Seq::<SecurityFindingView>::empty());
        while i < self.program.functions.len()
            invariant
                self.well_formed(),
                i <= self.program.functions@.len(),
                job == self.job(),
                known == views(summaries@),
                steps == max_steps as nat,
                job.summaries_spec(steps) == Some(known),
                job.reports_spec(known, i as nat, steps) == Some(views(findings@)),
            decreases self.program.functions@.len() - i,
        {
            if self.kept[i] {
                let analyzer = self.analyzer(i, &summaries, AnalysisMode::Findings);
                match analyzer.analyze(max_steps) {
                    Some(outcome) => {
                        let ghost before = findings@;
                        let mut more: Vec<SecurityFinding> = outcome.findings;
                        let ghost added = more@;
                        findings.append(&mut more);
                        assert(views(findings@) =~= views(before) + views(added));
                    },
                    None => {
                        proof {
                            lemma_reports_fail(job, known, i as nat, steps);
                        }
                        return None;
                    },
                }
            }
            i = i + 1;
        }
        Some(normalize_findings(findings))
    }

    /// The diagnostics of the analysis.
    pub fn run(&self, max_steps: u64) -> (r: Option<Vec<Diagnostic>>)
        requires
            self.well_formed(),
        ensures
            match r {
                Some(diagnostics) => self.job().findings_spec(max_steps as nat) is Some && views(
                    diagnostics@,
                ) == normalized(self.job().findings_spec(max_steps as nat)->0).map_values(
                    |f: SecurityFindingView| f.diagnostic_spec(),
                ),
                None => self.job().findings_spec(max_steps as nat) is None,
            },
    {
        match self.run_findings(max_steps) {
            Some(findings) => Some(collect_diagnostics(findings)),
            None => None,
        }
    }
}

proof fn lemma_round_fails(
    job: Job,
    summaries: Seq<Seq<ReturnSummaryView>>,
    i: nat,
    steps: nat,
)
    requires
        i < job.functions.len(),
        job.kept[i as int],
        analyze_spec(job.ctx(i as int, summaries, AnalysisMode::Summary), steps) is None,
    ensures
        job.round_spec(summaries, job.functions.len(), steps) is None,
{
    assert(job.round_spec(summaries, i + 1, steps) is None);
    lemma_round_stays_failed(job, summaries, i + 1, job.functions.len(), steps);
}

proof fn lemma_round_stays_failed(
    job: Job,
    summaries: Seq<Seq<ReturnSummaryView>>,
    m: nat,
    n: nat,
    steps: nat,
)
    requires
        0 < m <= n <= job.functions.len(),
        job.round_spec(summaries, m, steps) is None,
    ensures
        job.round_spec(summaries, n, steps) is None,
    decreases n,
{
    if m < n {
        lemma_round_stays_failed(job, summaries, m, (n - 1) as nat, steps);
    }
}

proof fn lemma_reports_fail(
    job: Job,
    summaries: Seq<Seq<ReturnSummaryView>>,
    i: nat,
    steps: nat,
)
    requires
        i < job.functions.len(),
        job.kept[i as int],
        analyze_spec(job.ctx(i as int, summaries, AnalysisMode::Findings), steps) is None,
    ensures
        job.reports_spec(summaries, job.functions.len(), steps) is None,
{
    assert(job.reports_spec(summaries, i + 1, steps) is None);
    lemma_reports_stay_failed(job, summaries, i + 1, job.functions.len(), steps);
}

proof fn lemma_reports_stay_failed(
    job: Job,
    summaries: Seq<Seq<ReturnSummaryView>>,
    m: nat,
    n: nat,
    steps: nat,
)
    requires
        0 < m <= n <= job.functions.len(),
        job.reports_spec(summaries, m, steps) is None,
    ensures
        job.reports_spec(summaries, n, steps) is None,
    decreases n,
{
    if m < n {
        lemma_reports_stay_failed(job, summaries, m, (n - 1) as nat, steps);
    }
}

/// All functions of a program, analyzed in fast mode.
pub open spec fn whole_program_job(program: Program) -> Job {
    Job {
        functions: program.functions@,
        kept: Seq::new(program.functions@.len(), |i: int| true),
        math_mode: SecurityMathMode::Fast,
    }
}

fn whole_program_analyzer<'a>(program: &'a Program) -> (r: ProgramAnalyzer<'a>)
    ensures
        r.well_formed(),
        r.job() == whole_program_job(*program),
{
    let r = ProgramAnalyzer::new(program, None, None, SecurityMathMode::Fast, 250);
    proof {
        let fs = program.functions@;
        let chosen = allowed_all(fs, None);
        let seeds = seeds_all(fs, None, None);
        assert(!seeds.contains(true)) by {
            if seeds.contains(true) {
                let k = choose|k: int| 0 <= k < seeds.len() && seeds[k] == true;
                assert(!seed_spec(fs[k], None, None));
            }
        }
        assert forall|i: int| 0 <= i < fs.len() implies #[trigger] r.kept@[i] by {
            assert(kept_spec(fs, None, None, i));
        }
        assert(r.kept@ =~= Seq::new(fs.len(), |i: int| true));
    }
    r
}

/// The diagnostics of a whole program.
pub fn analyze_cfgir_program(program: &Program, max_steps: u64) -> (r: Option<Vec<Diagnostic>>)
    ensures
        match r {
            Some(diagnostics) => whole_program_job(*program).findings_spec(max_steps as nat) is Some
                && views(diagnostics@) == normalized(
                whole_program_job(*program).findings_spec(max_steps as nat)->0,
            ).map_values(|f: SecurityFindingView| f.diagnostic_spec()),
            None => whole_program_job(*program).findings_spec(max_steps as nat) is None,
        },
{
    whole_program_analyzer(program).run(max_steps)
}

/// The findings of a whole program.
pub fn analyze_cfgir_program_findings(program: &Program, max_steps: u64) -> (r: Option<
    Vec<SecurityFinding>,
>)
    ensures
        match r {
            Some(findings) => whole_program_job(*program).findings_spec(max_steps as nat) == Some(
                views(findings@),
            ),
            None => whole_program_job(*program).findings_spec(max_steps as nat) is None,
        },
{
    whole_program_analyzer(program).run_findings(max_steps)
}

} // verus!
