//! Findings, and what is kept and shown of them.

use crate::ast::Loc;
use crate::domain::risk::RiskKind;
use crate::model::{dup_all, dup_opt, opt_view, views, Dup};
use crate::text::{
    before, join, joined, lemma_before_irreflexive, lemma_before_total, lemma_before_transitive,
    text_before,
};
use vstd::prelude::*;

verus! {

pub const SECURITY_PREFIX: &'static str = "Security ";

pub const SECURITY_CATEGORY: u8 = 98;

/// How grave a diagnostic is.
#[derive(Clone, Copy, Debug, PartialEq, Eq, Structural)]
pub enum Severity {
    Note,
    Warning,
    NonblockingError,
    BlockingError,
    Bug,
}

impl Severity {
    /// The name of the severity.
    pub open spec fn name_spec(self) -> Seq<char> {
        match self {
            Severity::Note => "Note"@,
            Severity::Warning => "Warning"@,
            Severity::NonblockingError => "NonblockingError"@,
            Severity::BlockingError => "BlockingError"@,
            Severity::Bug => "Bug"@,
        }
    }

    pub fn name(self) -> (r: &'static str)
        ensures
            r@ == self.name_spec(),
    {
        match self {
            Severity::Note => "Note",
            Severity::Warning => "Warning",
            Severity::NonblockingError => "NonblockingError",
            Severity::BlockingError => "BlockingError",
            Severity::Bug => "Bug",
        }
    }
}

/// Where a risky value ends up.
#[derive(Clone, Copy, Debug, PartialEq, Eq, Structural)]
pub enum SinkKind {
    PublicReturn,
    CallArgument,
    FieldWrite,
    ArithmeticUse,
}

#[derive(Clone, Debug, PartialEq, Eq)]
pub struct SecurityFinding {
    pub key: String,
    pub kind: RiskKind,
    pub loc: Loc,
    pub sink_loc: Option<Loc>,
    pub helper_loc: Option<Loc>,
    pub severity: Severity,
    pub title: String,
    pub message: String,
    pub failed_condition: String,
    pub path_facts: Vec<String>,
    pub recommendation: String,
    pub sink_kind: SinkKind,
    pub sink_detail: Option<String>,
}

#[verifier::ext_equal]
pub struct SecurityFindingView {
    pub key: Seq<char>,
    pub kind: RiskKind,
    pub loc: Loc,
    pub sink_loc: Option<Loc>,
    pub helper_loc: Option<Loc>,
    pub severity: Severity,
    pub title: Seq<char>,
    pub message: Seq<char>,
    pub failed_condition: Seq<char>,
    pub path_facts: Seq<Seq<char>>,
    pub recommendation: Seq<char>,
    pub sink_kind: SinkKind,
    pub sink_detail: Option<Seq<char>>,
}

impl View for SecurityFinding {
    type V = SecurityFindingView;

    open spec fn view(&self) -> SecurityFindingView {
        SecurityFindingView {
            key: self.key@,
            kind: self.kind,
            loc: self.loc,
            sink_loc: self.sink_loc,
            helper_loc: self.helper_loc,
            severity: self.severity,
            title: self.title@,
            message: self.message@,
            failed_condition: self.failed_condition@,
            path_facts: views(self.path_facts@),
            recommendation: self.recommendation@,
            sink_kind: self.sink_kind,
            sink_detail: opt_view(self.sink_detail),
        }
    }
}

impl Dup for SecurityFinding {
    fn dup(&self) -> (r: Self) {
        SecurityFinding {
            key: self.key.clone(),
            kind: self.kind,
            loc: self.loc,
            sink_loc: self.sink_loc,
            helper_loc: self.helper_loc,
            severity: self.severity,
            title: self.title.clone(),
            message: self.message.clone(),
            failed_condition: self.failed_condition.clone(),
            path_facts: dup_all(&self.path_facts),
            recommendation: self.recommendation.clone(),
            sink_kind: self.sink_kind,
            sink_detail: dup_opt(&self.sink_detail),
        }
    }
}

/// A place in the source, and what is said about it.
#[derive(Clone, Debug, PartialEq, Eq)]
pub struct Label {
    pub loc: Loc,
    pub text: String,
}

#[verifier::ext_equal]
pub struct LabelView {
    pub loc: Loc,
    pub text: Seq<char>,
}

impl View for Label {
    type V = LabelView;

    open spec fn view(&self) -> LabelView {
        LabelView { loc: self.loc, text: self.text@ }
    }
}

/// A diagnostic as a compiler front end shows it.
#[derive(Clone, Debug, PartialEq, Eq)]
pub struct Diagnostic {
    pub prefix: String,
    pub severity: Severity,
    pub category: u8,
    pub code: u8,
    pub text: String,
    pub primary_label: Label,
    pub secondary_labels: Vec<Label>,
    pub notes: Vec<String>,
}

#[verifier::ext_equal]
pub struct DiagnosticView {
    pub prefix: Seq<char>,
    pub severity: Severity,
    pub category: u8,
    pub code: u8,
    pub text: Seq<char>,
    pub primary_label: LabelView,
    pub secondary_labels: Seq<LabelView>,
    pub notes: Seq<Seq<char>>,
}

impl View for Diagnostic {
    type V = DiagnosticView;

    open spec fn view(&self) -> DiagnosticView {
        DiagnosticView {
            prefix: self.prefix@,
            severity: self.severity,
            category: self.category,
            code: self.code,
            text: self.text@,
            primary_label: self.primary_label@,
            secondary_labels: views(self.secondary_labels@),
            notes: views(self.notes@),
        }
    }
}

/// The number and the short text under which a kind of risk is reported.
pub open spec fn diagnostic_code_spec(kind: RiskKind) -> (u8, Seq<char>) {
    match kind {
        RiskKind::ReachableShiftTruncation => (1, "reachable shift truncation"@),
        RiskKind::FakeCheckedShift => (2, "fake checked shift helper"@),
        RiskKind::ReachableNarrowCast => (3, "reachable narrowing cast"@),
        RiskKind::InvalidShiftCount => (4, "invalid shift count"@),
        RiskKind::ReachableLossyRightShift => (5, "reachable lossy right shift"@),
        RiskKind::SuspiciousBitwiseArithmetic => (6, "suspicious bitwise arithmetic"@),
        RiskKind::ReachableWeakDenominator => (7, "reachable weak denominator"@),
        RiskKind::ReachableRoundingMismatch => (8, "reachable rounding mismatch"@),
        RiskKind::DynamicU256Shift => (9, "dynamic u256 shift"@),
    }
}

fn diagnostic_code(kind: RiskKind) -> (r: (u8, &'static str))
    ensures
        (r.0, r.1@) == diagnostic_code_spec(kind),
{
    match kind {
        RiskKind::ReachableShiftTruncation => (1, "reachable shift truncation"),
        RiskKind::FakeCheckedShift => (2, "fake checked shift helper"),
        RiskKind::ReachableNarrowCast => (3, "reachable narrowing cast"),
        RiskKind::InvalidShiftCount => (4, "invalid shift count"),
        RiskKind::ReachableLossyRightShift => (5, "reachable lossy right shift"),
        RiskKind::SuspiciousBitwiseArithmetic => (6, "suspicious bitwise arithmetic"),
        RiskKind::ReachableWeakDenominator => (7, "reachable weak denominator"),
        RiskKind::ReachableRoundingMismatch => (8, "reachable rounding mismatch"),
        RiskKind::DynamicU256Shift => (9, "dynamic u256 shift"),
    }
}

/// A list with one more element where there is one.
pub open spec fn push_some<T>(s: Seq<T>, x: Option<T>) -> Seq<T> {
    match x {
        Some(x) => s.push(x),
        None => s,
    }
}

impl SecurityFindingView {
    pub open spec fn secondary_labels(self) -> Seq<LabelView> {
        let sink = match self.sink_loc {
            Some(loc) => Some(
                LabelView { loc, text: "value reaches a meaningful downstream sink"@ },
            ),
            None => None,
        };
        let helper = match self.helper_loc {
            Some(loc) => Some(LabelView { loc, text: "helper wrapper involved in this path"@ }),
            None => None,
        };
        push_some(push_some(Seq::empty(), sink), helper)
    }

    pub open spec fn notes(self) -> Seq<Seq<char>> {
        let first = seq![
            self.message,
            "rule id: "@ + self.kind.rule_id_spec(),
            "failed obligation: "@ + self.failed_condition,
        ];
        let facts = if self.path_facts.len() > 0 {
            Some("path facts: "@ + joined(self.path_facts, ", "@))
        } else {
            None
        };
        let detail = match self.sink_detail {
            Some(detail) => Some("sink detail: "@ + detail),
            None => None,
        };
        push_some(push_some(first, facts), detail).push(self.recommendation)
    }

    pub open spec fn diagnostic_spec(self) -> DiagnosticView {
        DiagnosticView {
            prefix: SECURITY_PREFIX@,
            severity: self.severity,
            category: SECURITY_CATEGORY,
            code: diagnostic_code_spec(self.kind).0,
            text: diagnostic_code_spec(self.kind).1,
            primary_label: LabelView { loc: self.loc, text: self.title },
            secondary_labels: self.secondary_labels(),
            notes: self.notes(),
        }
    }

    /// How much a finding counts among those of the same key: by its severity, then by its sink.
    pub open spec fn rank(self) -> nat {
        severity_rank_spec(self.severity) * 3 + sink_kind_rank_spec(self.sink_kind)
    }
}

impl SecurityFinding {
    pub fn to_diagnostic(&self) -> (r: Diagnostic)
        ensures
            r@ == self@.diagnostic_spec(),
    {
        let (code, text) = diagnostic_code(self.kind);
        let mut secondary_labels: Vec<Label> = Vec::new();
        assert(views(secondary_labels@) =~= Seq::<LabelView>::empty());
        if let Some(loc) = self.sink_loc {
            let ghost start = secondary_labels@;
            let label = Label {
                loc,
                text: "value reaches a meaningful downstream sink".to_owned(),
            };
            secondary_labels.push(label);
            assert(views(secondary_labels@) =~= views(start).push(label@));
        }
        if let Some(loc) = self.helper_loc {
            let ghost start = secondary_labels@;
            let label = Label { loc, text: "helper wrapper involved in this path".to_owned() };
            secondary_labels.push(label);
            assert(views(secondary_labels@) =~= views(start).push(label@));
        }
        let mut rule: String = "rule id: ".to_owned();
        rule.append(self.kind.rule_id());
        let mut failed: String = "failed obligation: ".to_owned();
        failed.append(self.failed_condition.as_str());
        let mut notes: Vec<String> = Vec::new();
        notes.push(self.message.clone());
        notes.push(rule);
        notes.push(failed);
        assert(views(notes@) =~= seq![
            self@.message,
            "rule id: "@ + self@.kind.rule_id_spec(),
            "failed obligation: "@ + self@.failed_condition,
        ]);
        if self.path_facts.len() > 0 {
            let ghost start = notes@;
            let mut facts: String = "path facts: ".to_owned();
            facts.append(join(&self.path_facts, ", ").as_str());
            notes.push(facts);
            assert(views(notes@) =~= views(start).push(facts@));
        }
        if let Some(detail) = &self.sink_detail {
            let ghost start = notes@;
            let mut note: String = "sink detail: ".to_owned();
            note.append(detail.as_str());
            notes.push(note);
            assert(views(notes@) =~= views(start).push(note@));
        }
        let ghost start = notes@;
        notes.push(self.recommendation.clone());
        assert(views(notes@) =~= views(start).push(self@.recommendation));
        Diagnostic {
            prefix: SECURITY_PREFIX.to_owned(),
            severity: self.severity,
            category: SECURITY_CATEGORY,
            code,
            text: text.to_owned(),
            primary_label: Label { loc: self.loc, text: self.title.clone() },
            secondary_labels,
            notes,
        }
    }
}

pub open spec fn severity_rank_spec(severity: Severity) -> nat {
    match severity {
        Severity::Bug | Severity::BlockingError | Severity::NonblockingError => 3,
        Severity::Warning => 2,
        Severity::Note => 1,
    }
}

pub fn severity_rank(severity: Severity) -> (r: u8)
    ensures
        r == severity_rank_spec(severity),
{
    match severity {
        Severity::Bug | Severity::BlockingError | Severity::NonblockingError => 3,
        Severity::Warning => 2,
        Severity::Note => 1,
    }
}

pub open spec fn sink_kind_rank_spec(kind: SinkKind) -> nat {
    match kind {
        SinkKind::CallArgument | SinkKind::FieldWrite => 2,
        SinkKind::PublicReturn => 1,
        SinkKind::ArithmeticUse => 0,
    }
}

pub fn sink_kind_rank(kind: &SinkKind) -> (r: u8)
    ensures
        r == sink_kind_rank_spec(*kind),
{
    match kind {
        SinkKind::CallArgument | SinkKind::FieldWrite => 2,
        SinkKind::PublicReturn => 1,
        SinkKind::ArithmeticUse => 0,
    }
}

/// The first place from `from` on whose key does not come before `key`.
pub open spec fn place_of(sorted: Seq<SecurityFindingView>, key: Seq<char>, from: nat) -> nat
    decreases sorted.len() - from,
{
    if from < sorted.len() && text_before(sorted[from as int].key, key) {
        place_of(sorted, key, from + 1)
    } else {
        from
    }
}

/// A list in the order of keys, after one more finding: of two with the same key, the one that
/// counts more stays, and of two that count the same, the earlier.
pub open spec fn with_finding(
    sorted: Seq<SecurityFindingView>,
    finding: SecurityFindingView,
) -> Seq<SecurityFindingView> {
    let at = place_of(sorted, finding.key, 0);
    if at < sorted.len() && sorted[at as int].key == finding.key {
        if sorted[at as int].rank() >= finding.rank() {
            sorted
        } else {
            sorted.update(at as int, finding)
        }
    } else {
        sorted.insert(at as int, finding)
    }
}

/// The best finding of each key, in the order of keys.
pub open spec fn best_findings(findings: Seq<SecurityFindingView>) -> Seq<SecurityFindingView>
    decreases findings.len(),
{
    if findings.len() == 0 {
        Seq::empty()
    } else {
        with_finding(best_findings(findings.drop_last()), findings.last())
    }
}

/// Whether a graver finding of another kind at the same sink makes a bitwise warning superfluous.
pub open spec fn overshadowed(
    findings: Seq<SecurityFindingView>,
    finding: SecurityFindingView,
) -> bool {
    finding.kind is SuspiciousBitwiseArithmetic && exists|i: int|
        0 <= i < findings.len() && overshadows(#[trigger] findings[i], finding)
}

pub open spec fn overshadows(other: SecurityFindingView, finding: SecurityFindingView) -> bool {
    other.kind !is SuspiciousBitwiseArithmetic && severity_rank_spec(other.severity)
        > severity_rank_spec(finding.severity) && other.sink_loc == finding.sink_loc
}

/// The best finding of each key in the order of keys, without overshadowed bitwise warnings.
pub open spec fn normalized(findings: Seq<SecurityFindingView>) -> Seq<SecurityFindingView> {
    let best = best_findings(findings);
    best.filter(|f: SecurityFindingView| !overshadowed(best, f))
}

fn insert_finding(sorted: &mut Vec<SecurityFinding>, finding: SecurityFinding)
    ensures
        views(final(sorted)@) == with_finding(views(old(sorted)@), finding@),
{
    let ghost start = views(sorted@);
    let mut at: usize = 0;
    while at < sorted.len() && before(sorted[at].key.as_str(), finding.key.as_str())
        invariant
            at <= sorted@.len(),
            sorted@ == old(sorted)@,
            start == views(sorted@),
            place_of(start, finding@.key, 0) == place_of(start, finding@.key, at as nat),
        decreases sorted@.len() - at,
    {
        at = at + 1;
    }
    if at < sorted.len() && sorted[at].key == finding.key {
        let existing_severity: u8 = severity_rank(sorted[at].severity);
        let severity: u8 = severity_rank(finding.severity);
        let keep: bool = existing_severity > severity || (existing_severity == severity
            && sink_kind_rank(&sorted[at].sink_kind) >= sink_kind_rank(&finding.sink_kind));
        assert(keep == (start[at as int].rank() >= finding@.rank()));
        if !keep {
            sorted.set(at, finding);
            assert(views(sorted@) =~= start.update(at as int, finding@));
        }
    } else {
        sorted.insert(at, finding);
        assert(views(sorted@) =~= start.insert(at as int, finding@));
    }
}

pub fn normalize_findings(findings: Vec<SecurityFinding>) -> (r: Vec<SecurityFinding>)
    ensures
        views(r@) == normalized(views(findings@)),
{
    let ghost all = views(findings@);
    let mut best: Vec<SecurityFinding> = Vec::new();
    let mut i: usize = 0;
    assert(views(best@) =~= best_findings(all.take(0)));
    while i < findings.len()
        invariant
            i <= findings@.len(),
            all == views(findings@),
            views(best@) == best_findings(all.take(i as int)),
        decreases findings@.len() - i,
    {
        assert(all.take(i + 1).drop_last() =~= all.take(i as int));
        insert_finding(&mut best, findings[i].dup());
        i = i + 1;
    }
    assert(all.take(i as int) =~= all);
    let ghost kept = views(best@);
    let ghost clear = |f: SecurityFindingView| !overshadowed(kept, f);
    let mut r: Vec<SecurityFinding> = Vec::new();
    let mut i: usize = 0;
    assert(views(r@) =~= kept.take(0).filter(clear)) by {
        reveal(Seq::filter);
    }
    while i < best.len()
        invariant
            i <= best@.len(),
            kept == views(best@),
            clear == (|f: SecurityFindingView| !overshadowed(kept, f)),
            views(r@) == kept.take(i as int).filter(clear),
        decreases best@.len() - i,
    {
        let ghost start = r@;
        assert(kept.take(i + 1).drop_last() =~= kept.take(i as int));
        proof {
            reveal(Seq::filter);
        }
        if !is_overshadowed(&best, &best[i]) {
            r.push(best[i].dup());
            assert(views(r@) =~= views(start).push(kept[i as int]));
        }
        i = i + 1;
    }
    assert(kept.take(i as int) =~= kept);
    r
}

fn is_overshadowed(findings: &Vec<SecurityFinding>, finding: &SecurityFinding) -> (r: bool)
    ensures
        r == overshadowed(views(findings@), finding@),
{
    if finding.kind != RiskKind::SuspiciousBitwiseArithmetic {
        return false;
    }
    let mut i: usize = 0;
    while i < findings.len()
        invariant
            i <= findings@.len(),
            finding.kind is SuspiciousBitwiseArithmetic,
            forall|j: int| 0 <= j < i ==> !overshadows(#[trigger] views(findings@)[j], finding@),
        decreases findings@.len() - i,
    {
        if findings[i].kind != RiskKind::SuspiciousBitwiseArithmetic && severity_rank(
            findings[i].severity,
        ) > severity_rank(finding.severity) && findings[i].sink_loc == finding.sink_loc {
            assert(overshadows(views(findings@)[i as int], finding@));
            return true;
        }
        assert(!overshadows(views(findings@)[i as int], finding@));
        i = i + 1;
    }
    false
}

/// The diagnostics of the findings that are kept, in the order of keys.
pub fn collect_diagnostics(findings: Vec<SecurityFinding>) -> (r: Vec<Diagnostic>)
    ensures
        views(r@) == normalized(views(findings@)).map_values(
            |f: SecurityFindingView| f.diagnostic_spec(),
        ),
{
    let ghost wanted = normalized(views(findings@)).map_values(
        |f: SecurityFindingView| f.diagnostic_spec(),
    );
    let kept = normalize_findings(findings);
    let mut r: Vec<Diagnostic> = Vec::new();
    let mut i: usize = 0;
    while i < kept.len()
        invariant
            i <= kept@.len(),
            wanted == views(kept@).map_values(|f: SecurityFindingView| f.diagnostic_spec()),
            views(r@) =~= wanted.take(i as int),
        decreases kept@.len() - i,
    {
        let ghost start = r@;
        let diagnostic = kept[i].to_diagnostic();
        r.push(diagnostic);
        assert(views(r@) =~= views(start).push(diagnostic@));
        i = i + 1;
    }
    assert(wanted.take(i as int) =~= wanted);
    r
}

/// Whether the keys stand in order, each once.
pub open spec fn keys_increase(findings: Seq<SecurityFindingView>) -> bool {
    forall|i: int, j: int|
        #![trigger findings[i], findings[j]]
        0 <= i < j < findings.len() ==> text_before(findings[i].key, findings[j].key)
}

proof fn lemma_place(sorted: Seq<SecurityFindingView>, key: Seq<char>, from: nat)
    requires
        keys_increase(sorted),
        from <= sorted.len(),
        forall|i: int| 0 <= i < from ==> text_before((#[trigger] sorted[i]).key, key),
    ensures
        ({
            let at = place_of(sorted, key, from);
            &&& from <= at <= sorted.len()
            &&& forall|i: int| 0 <= i < at ==> text_before((#[trigger] sorted[i]).key, key)
            &&& forall|i: int|
                at <= i < sorted.len() ==> (#[trigger] sorted[i]).key == key || text_before(
                    key,
                    sorted[i].key,
                )
            &&& forall|i: int|
                at < i < sorted.len() ==> text_before(key, (#[trigger] sorted[i]).key)
        }),
    decreases sorted.len() - from,
{
    if from < sorted.len() && text_before(sorted[from as int].key, key) {
        lemma_place(sorted, key, from + 1);
    } else if from < sorted.len() {
        lemma_before_total(sorted[from as int].key, key);
        assert forall|i: int| from < i < sorted.len() implies text_before(
            key,
            (#[trigger] sorted[i]).key,
        ) by {
            assert(text_before(sorted[from as int].key, sorted[i].key));
            if sorted[from as int].key != key {
                lemma_before_transitive(key, sorted[from as int].key, sorted[i].key);
            }
        }
    }
}

/// Whether each of `best` is one of the findings, and the best of its key.
#[verifier::opaque]
pub open spec fn only_the_best(
    best: Seq<SecurityFindingView>,
    findings: Seq<SecurityFindingView>,
) -> bool {
    forall|i: int|
        #![trigger best[i]]
        0 <= i < best.len() ==> exists|j: int|
            0 <= j < findings.len() && best[i] == #[trigger] findings[j] && is_best(findings, j)
}

/// Whether each key of the findings is the key of one of `best`.
#[verifier::opaque]
pub open spec fn each_key(
    best: Seq<SecurityFindingView>,
    findings: Seq<SecurityFindingView>,
) -> bool {
    forall|j: int|
        #![trigger findings[j]]
        0 <= j < findings.len() ==> exists|i: int|
            0 <= i < best.len() && (#[trigger] best[i]).key == findings[j].key
}

/// Whether a finding counts more than each earlier one of its key, and no less than each later.
pub open spec fn is_best(findings: Seq<SecurityFindingView>, j: int) -> bool {
    forall|k: int|
        0 <= k < findings.len() && (#[trigger] findings[k]).key == findings[j].key
            ==> findings[k].rank() <= findings[j].rank() && (k < j ==> findings[k].rank()
            < findings[j].rank())
}

proof fn lemma_keys_still_increase(best: Seq<SecurityFindingView>, f: SecurityFindingView)
    requires
        keys_increase(best),
    ensures
        keys_increase(with_finding(best, f)),
{
    let at = place_of(best, f.key, 0) as int;
    lemma_place(best, f.key, 0);
    let next = with_finding(best, f);
    let found = at < best.len() && best[at].key == f.key;
    assert forall|i: int, j: int|
        #![trigger next[i], next[j]]
        0 <= i < j < next.len() implies text_before(next[i].key, next[j].key) by {
        if found {
            assert(next[i].key == best[i].key && next[j].key == best[j].key);
        } else {
            let i2 = if i < at {
                i
            } else {
                i - 1
            };
            let j2 = if j < at {
                j
            } else {
                j - 1
            };
            if i != at && j != at {
                assert(next[i] == best[i2] && next[j] == best[j2]);
            } else if i == at {
                assert(next[j] == best[j2] && next[i] == f);
            } else {
                assert(next[i] == best[i2] && next[j] == f);
            }
        }
    }
}

/// Where a key is among those of the findings, the best list holds it at its place.
proof fn lemma_found(
    best: Seq<SecurityFindingView>,
    findings: Seq<SecurityFindingView>,
    key: Seq<char>,
    j: int,
)
    requires
        keys_increase(best),
        each_key(best, findings),
        0 <= j < findings.len(),
        findings[j].key == key,
    ensures
        place_of(best, key, 0) < best.len(),
        best[place_of(best, key, 0) as int].key == key,
{
    reveal(each_key);
    lemma_place(best, key, 0);
    lemma_before_irreflexive(key);
    let i = choose|i: int| 0 <= i < best.len() && (#[trigger] best[i]).key == findings[j].key;
    assert(best[i].key == key);
}

proof fn lemma_each_key(
    best: Seq<SecurityFindingView>,
    findings: Seq<SecurityFindingView>,
    f: SecurityFindingView,
)
    requires
        keys_increase(best),
        each_key(best, findings),
    ensures
        each_key(with_finding(best, f), findings.push(f)),
{
    reveal(each_key);
    let at = place_of(best, f.key, 0) as int;
    lemma_place(best, f.key, 0);
    let next = with_finding(best, f);
    let all = findings.push(f);
    let found = at < best.len() && best[at].key == f.key;
    assert forall|j: int| #![trigger all[j]] 0 <= j < all.len() implies exists|i: int|
        0 <= i < next.len() && (#[trigger] next[i]).key == all[j].key by {
        if j == findings.len() {
            assert(next[at].key == f.key);
        } else {
            assert(all[j] == findings[j]);
            let i = choose|i: int|
                0 <= i < best.len() && (#[trigger] best[i]).key == findings[j].key;
            if found {
                assert(next[i].key == best[i].key);
            } else if i < at {
                assert(next[i] == best[i]);
            } else {
                assert(next[i + 1] == best[i]);
            }
        }
    }
}

/// A best finding stays the best when one more comes that is of another key or counts no more.
proof fn lemma_stays_best(findings: Seq<SecurityFindingView>, f: SecurityFindingView, j: int)
    requires
        0 <= j < findings.len(),
        is_best(findings, j),
        f.key == findings[j].key ==> f.rank() <= findings[j].rank(),
    ensures
        is_best(findings.push(f), j),
{
    let all = findings.push(f);
    assert forall|k: int| 0 <= k < all.len() && (#[trigger] all[k]).key == all[j].key implies
        all[k].rank() <= all[j].rank() && (k < j ==> all[k].rank() < all[j].rank()) by {
        if k < findings.len() {
            assert(all[k] == findings[k]);
        }
    }
}

proof fn lemma_only_the_best(
    best: Seq<SecurityFindingView>,
    findings: Seq<SecurityFindingView>,
    f: SecurityFindingView,
)
    requires
        keys_increase(best),
        only_the_best(best, findings),
        each_key(best, findings),
    ensures
        only_the_best(with_finding(best, f), findings.push(f)),
{
    reveal(only_the_best);
    let at = place_of(best, f.key, 0) as int;
    lemma_place(best, f.key, 0);
    let next = with_finding(best, f);
    let all = findings.push(f);
    let n = findings.len() as int;
    let found = at < best.len() && best[at].key == f.key;
    let replaced = found && best[at].rank() < f.rank();
    if replaced || !found {
        let top = if found {
            choose|j: int|
                0 <= j < n && best[at] == #[trigger] findings[j] && is_best(findings, j)
        } else {
            0
        };
        assert forall|k: int| 0 <= k < all.len() && (#[trigger] all[k]).key == all[n].key implies
            all[k].rank() <= all[n].rank() && (k < n ==> all[k].rank() < all[n].rank()) by {
            if k < n {
                assert(all[k] == findings[k]);
                lemma_found(best, findings, f.key, k);
                assert(best[at] == findings[top]);
            }
        }
        assert(is_best(all, n));
    }
    assert forall|i: int| #![trigger next[i]] 0 <= i < next.len() implies exists|j: int|
        0 <= j < all.len() && next[i] == #[trigger] all[j] && is_best(all, j) by {
        if i == at && (replaced || !found) {
            assert(next[i] == all[n]);
        } else {
            let b = if found || i < at {
                i
            } else {
                i - 1
            };
            assert(next[i] == best[b]);
            let j = choose|j: int|
                0 <= j < n && best[b] == #[trigger] findings[j] && is_best(findings, j);
            if best[b].key == f.key {
                lemma_before_irreflexive(f.key);
                assert(b == at);
            }
            lemma_stays_best(findings, f, j);
            assert(all[j] == next[i]);
        }
    }
}

/// What is kept of the findings has each key once, in order; it is, for each key that occurs, the
/// finding that counts most and among those that count the same the first.
pub proof fn best_findings_are_the_best(findings: Seq<SecurityFindingView>)
    ensures
        keys_increase(best_findings(findings)),
        only_the_best(best_findings(findings), findings),
        each_key(best_findings(findings), findings),
    decreases findings.len(),
{
    if findings.len() > 0 {
        let rest = findings.drop_last();
        let best = best_findings(rest);
        best_findings_are_the_best(rest);
        lemma_keys_still_increase(best, findings.last());
        lemma_only_the_best(best, rest, findings.last());
        lemma_each_key(best, rest, findings.last());
        assert(rest.push(findings.last()) =~= findings);
    } else {
        reveal(only_the_best);
        reveal(each_key);
    }
}

proof fn lemma_filter_in_order(s: Seq<SecurityFindingView>, p: spec_fn(SecurityFindingView) -> bool)
    requires
        keys_increase(s),
    ensures
        keys_increase(s.filter(p)),
        forall|f: SecurityFindingView| #[trigger]
            s.filter(p).contains(f) <==> s.contains(f) && p(f),
    decreases s.len(),
{
    reveal(Seq::filter);
    if s.len() > 0 {
        let t = s.drop_last();
        assert(keys_increase(t)) by {
            assert forall|i: int, j: int|
                #![trigger t[i], t[j]]
                0 <= i < j < t.len() implies text_before(t[i].key, t[j].key) by {
                assert(t[i] == s[i] && t[j] == s[j]);
            }
        }
        lemma_filter_in_order(t, p);
        let r = t.filter(p);
        let out = s.filter(p);
        assert forall|f: SecurityFindingView| #[trigger] out.contains(f) <==> s.contains(f)
            && p(f) by {
            assert(s.contains(f) <==> t.contains(f) || f == s.last()) by {
                if s.contains(f) {
                    let i = choose|i: int| 0 <= i < s.len() && s[i] == f;
                    if i < t.len() {
                        assert(t[i] == f);
                    }
                }
                if t.contains(f) {
                    let i = choose|i: int| 0 <= i < t.len() && t[i] == f;
                    assert(s[i] == f);
                }
                assert(s[s.len() - 1] == s.last());
            }
            if p(s.last()) {
                assert(out == r.push(s.last()));
                assert(out.contains(f) <==> r.contains(f) || f == s.last()) by {
                    if r.contains(f) {
                        let i = choose|i: int| 0 <= i < r.len() && r[i] == f;
                        assert(out[i] == f);
                    }
                    assert(out[r.len() as int] == s.last());
                    if out.contains(f) {
                        let i = choose|i: int| 0 <= i < out.len() && out[i] == f;
                        if i < r.len() {
                            assert(r[i] == f);
                        }
                    }
                }
                assert(r.contains(f) <==> t.contains(f) && p(f));
            } else {
                assert(out == r);
                assert(r.contains(f) <==> t.contains(f) && p(f));
            }
        }
        if p(s.last()) {
            assert forall|i: int, j: int|
                #![trigger out[i], out[j]]
                0 <= i < j < out.len() implies text_before(out[i].key, out[j].key) by {
                if j == r.len() {
                    assert(r.contains(r[i]));
                    let k = choose|k: int| 0 <= k < t.len() && t[k] == r[i];
                    assert(s[k] == out[i] && s[s.len() - 1] == out[j]);
                } else {
                    assert(out[i] == r[i] && out[j] == r[j]);
                }
            }
        }
    }
}

/// Normalized findings have each key once, in order; each of them is one of the findings and the
/// best of its key; and none but overshadowed bitwise warnings is missing.
pub proof fn normalized_findings_are_complete(findings: Seq<SecurityFindingView>)
    ensures
        keys_increase(normalized(findings)),
        forall|i: int|
            #![trigger normalized(findings)[i]]
            0 <= i < normalized(findings).len() ==> exists|j: int|
                0 <= j < findings.len() && normalized(findings)[i] == #[trigger] findings[j]
                    && is_best(findings, j),
        forall|f: SecurityFindingView| #[trigger]
            normalized(findings).contains(f) <==> best_findings(findings).contains(f)
                && !overshadowed(best_findings(findings), f),
{
    let best = best_findings(findings);
    best_findings_are_the_best(findings);
    reveal(only_the_best);
    lemma_filter_in_order(best, |f: SecurityFindingView| !overshadowed(best, f));
    let r = normalized(findings);
    assert forall|i: int| #![trigger r[i]] 0 <= i < r.len() implies exists|j: int|
        0 <= j < findings.len() && r[i] == #[trigger] findings[j] && is_best(findings, j) by {
        assert(r.contains(r[i]));
        let b = choose|b: int| 0 <= b < best.len() && best[b] == r[i];
        let j = choose|j: int|
            0 <= j < findings.len() && best[b] == #[trigger] findings[j] && is_best(findings, j);
        assert(findings[j] == r[i]);
    }
}

proof fn lemma_best_of_sorted(s: Seq<SecurityFindingView>)
    requires
        keys_increase(s),
    ensures
        best_findings(s) == s,
    decreases s.len(),
{
    if s.len() > 0 {
        let t = s.drop_last();
        assert(keys_increase(t)) by {
            assert forall|i: int, j: int|
                #![trigger t[i], t[j]]
                0 <= i < j < t.len() implies text_before(t[i].key, t[j].key) by {
                assert(t[i] == s[i] && t[j] == s[j]);
            }
        }
        lemma_best_of_sorted(t);
        let f = s.last();
        let at = place_of(t, f.key, 0) as int;
        lemma_place(t, f.key, 0);
        if at < t.len() {
            assert(t[at] == s[at] && s[s.len() - 1] == f);
            assert(text_before(s[at].key, s[s.len() - 1].key));
            lemma_before_irreflexive(f.key);
            if t[at].key != f.key {
                lemma_before_transitive(f.key, t[at].key, f.key);
            }
            assert(false);
        }
        assert(t.insert(at, f) =~= s);
    } else {
        assert(best_findings(s) =~= s);
    }
}

/// Normalizing findings that were normalized changes nothing.
pub proof fn normalizing_is_idempotent(findings: Seq<SecurityFindingView>)
    ensures
        normalized(normalized(findings)) == normalized(findings),
{
    let best = best_findings(findings);
    let once = normalized(findings);
    normalized_findings_are_complete(findings);
    lemma_best_of_sorted(once);
    let clear = |f: SecurityFindingView| !overshadowed(once, f);
    assert forall|i: int| 0 <= i < once.len() implies clear(#[trigger] once[i]) by {
        assert(once.contains(once[i]));
        if overshadowed(once, once[i]) {
            let k = choose|k: int| 0 <= k < once.len() && overshadows(#[trigger] once[k], once[i]);
            assert(once.contains(once[k]));
            let b = choose|b: int| 0 <= b < best.len() && best[b] == once[k];
            assert(overshadows(best[b], once[i]));
        }
    }
    lemma_filter_all(once, clear);
}

proof fn lemma_filter_all(s: Seq<SecurityFindingView>, p: spec_fn(SecurityFindingView) -> bool)
    requires
        forall|i: int| 0 <= i < s.len() ==> p(#[trigger] s[i]),
    ensures
        s.filter(p) == s,
    decreases s.len(),
{
    reveal(Seq::filter);
    if s.len() > 0 {
        let t = s.drop_last();
        assert forall|i: int| 0 <= i < t.len() implies p(#[trigger] t[i]) by {
            assert(t[i] == s[i]);
        }
        lemma_filter_all(t, p);
        assert(p(s[s.len() - 1]));
        assert(t.push(s.last()) =~= s);
    } else {
        assert(s.filter(p) =~= s);
    }
}

} // verus!
