//! The table of findings for one package.

use crate::model::views;
use crate::options::{AnalysisScope, DependencyMode, SecurityMathMode};
use crate::report::SecurityFinding;
use crate::scope::PackageSourceScope;
use crate::text::{
    before, decimal, lemma_before_irreflexive, lemma_before_total, lemma_before_transitive,
    same_text, text_before, write_u128,
};
use vstd::prelude::*;

verus! {

pub fn analysis_scope_label(scope: AnalysisScope) -> (r: &'static str)
    ensures
        r@ == (match scope {
            AnalysisScope::RootOnly => "root"@,
            AnalysisScope::RootAndDirectDeps => "direct"@,
            AnalysisScope::WholeGraph => "all"@,
        }),
{
    match scope {
        AnalysisScope::RootOnly => "root",
        AnalysisScope::RootAndDirectDeps => "direct",
        AnalysisScope::WholeGraph => "all",
    }
}

pub fn dependency_mode_label(mode: DependencyMode) -> (r: &'static str)
    ensures
        r@ == (match mode {
            DependencyMode::Off => "off"@,
            DependencyMode::Auto => "auto"@,
            DependencyMode::Forced => "forced"@,
        }),
{
    match mode {
        DependencyMode::Off => "off",
        DependencyMode::Auto => "auto",
        DependencyMode::Forced => "forced",
    }
}

pub fn math_mode_label(mode: SecurityMathMode) -> (r: &'static str)
    ensures
        r@ == (match mode {
            SecurityMathMode::Fast => "fast"@,
            SecurityMathMode::Deep => "deep"@,
        }),
{
    match mode {
        SecurityMathMode::Fast => "fast",
        SecurityMathMode::Deep => "deep",
    }
}

/// A row of the table: one finding, with the file and line where it stands.
#[derive(Clone, Debug, PartialEq, Eq)]
pub struct Row {
    pub file: String,
    /// Counted from one; zero where the place is unknown.
    pub line: usize,
    pub scope: String,
    pub severity: String,
    pub rule: String,
    pub message: String,
}

#[verifier::ext_equal]
pub struct RowView {
    pub file: Seq<char>,
    pub line: nat,
    pub scope: Seq<char>,
    pub severity: Seq<char>,
    pub rule: Seq<char>,
    pub message: Seq<char>,
}

impl View for Row {
    type V = RowView;

    open spec fn view(&self) -> RowView {
        RowView {
            file: self.file@,
            line: self.line as nat,
            scope: self.scope@,
            severity: self.severity@,
            rule: self.rule@,
            message: self.message@,
        }
    }
}

/// The row of a finding.
pub fn row(
    file: &str,
    line: usize,
    scope: PackageSourceScope,
    finding: &SecurityFinding,
) -> (r: Row)
    ensures
        r@ == (RowView {
            file: file@,
            line: line as nat,
            scope: scope.label_spec(),
            severity: finding.severity.name_spec(),
            rule: finding.kind.rule_id_spec(),
            message: finding.message@,
        }),
{
    Row {
        file: file.to_owned(),
        line,
        scope: scope.label().to_owned(),
        severity: finding.severity.name().to_owned(),
        rule: finding.kind.rule_id().to_owned(),
        message: finding.message.clone(),
    }
}

/// The order of rows: by file, then by line, then by rule.
pub open spec fn row_before_spec(a: RowView, b: RowView) -> bool {
    if a.file != b.file {
        text_before(a.file, b.file)
    } else if a.line != b.line {
        a.line < b.line
    } else {
        text_before(a.rule, b.rule)
    }
}

pub fn row_before(a: &Row, b: &Row) -> (r: bool)
    ensures
        r == row_before_spec(a@, b@),
{
    if !same_text(a.file.as_str(), b.file.as_str()) {
        before(a.file.as_str(), b.file.as_str())
    } else if a.line != b.line {
        a.line < b.line
    } else {
        before(a.rule.as_str(), b.rule.as_str())
    }
}

/// Insertion into a table in order, after the rows that are equal in the order.
pub open spec fn insert_row(sorted: Seq<RowView>, row: RowView) -> Seq<RowView>
    decreases sorted.len(),
{
    if sorted.len() > 0 && row_before_spec(row, sorted.last()) {
        insert_row(sorted.drop_last(), row).push(sorted.last())
    } else {
        sorted.push(row)
    }
}

/// The rows in order; rows that are equal in the order keep theirs.
pub open spec fn sorted_rows(rows: Seq<RowView>) -> Seq<RowView>
    decreases rows.len(),
{
    if rows.len() == 0 {
        Seq::empty()
    } else {
        insert_row(sorted_rows(rows.drop_last()), rows.last())
    }
}

proof fn lemma_insert_row_at(sorted: Seq<RowView>, row: RowView, at: int)
    requires
        0 <= at <= sorted.len(),
        forall|i: int| at <= i < sorted.len() ==> row_before_spec(row, #[trigger] sorted[i]),
        at > 0 ==> !row_before_spec(row, sorted[at - 1]),
    ensures
        insert_row(sorted, row) == sorted.insert(at, row),
    decreases sorted.len(),
{
    if at < sorted.len() {
        assert(row_before_spec(row, sorted[sorted.len() - 1]));
        lemma_insert_row_at(sorted.drop_last(), row, at);
        assert(sorted.drop_last().insert(at, row).push(sorted.last()) =~= sorted.insert(at, row));
    } else {
        assert(sorted.push(row) =~= sorted.insert(at, row));
    }
}

pub fn sort_rows(rows: Vec<Row>) -> (r: Vec<Row>)
    ensures
        views(r@) == sorted_rows(views(rows@)),
{
    let ghost all = views(rows@);
    let mut rest: Vec<Row> = rows;
    let mut reversed: Vec<Row> = Vec::new();
    while rest.len() > 0
        invariant
            rest@.len() <= all.len(),
            views(rest@) =~= all.take(rest@.len() as int),
            reversed@.len() == all.len() - rest@.len(),
            forall|k: int|
                0 <= k < reversed@.len() ==> (#[trigger] reversed@[k])@ == all[all.len() - 1 - k],
        decreases rest@.len(),
    {
        let ghost before = rest@;
        if let Some(last) = rest.pop() {
            assert(before.last()@ == views(before)[before.len() - 1]);
            assert(views(rest@) =~= views(before).drop_last());
            reversed.push(last);
        }
    }
    let mut r: Vec<Row> = Vec::new();
    let mut i: usize = 0;
    assert(views(r@) =~= sorted_rows(all.take(0)));
    let n: usize = reversed.len();
    while i < n
        invariant
            i <= n,
            n == all.len(),
            reversed@.len() == n - i,
            forall|k: int|
                0 <= k < reversed@.len() ==> (#[trigger] reversed@[k])@ == all[n - 1 - k],
            views(r@) == sorted_rows(all.take(i as int)),
        decreases n - i,
    {
        let ghost start = views(r@);
        assert(all.take(i + 1).drop_last() =~= all.take(i as int));
        if let Some(next) = reversed.pop() {
            assert(next@ == all[i as int]);
            let mut at: usize = r.len();
            while at > 0 && row_before(&next, &r[at - 1])
                invariant
                    at <= r@.len(),
                    start == views(r@),
                    forall|j: int|
                        at <= j < start.len() ==> row_before_spec(next@, #[trigger] start[j]),
                decreases at,
            {
                at = at - 1;
            }
            proof {
                lemma_insert_row_at(start, next@, at as int);
            }
            r.insert(at, next);
            assert(views(r@) =~= start.insert(at as int, next@));
        }
        i = i + 1;
    }
    assert(all.take(i as int) =~= all);
    r
}

/// The line of the table for a row.
pub fn row_text(row: &Row) -> (r: String)
    ensures
        r@ == row@.file + " | "@ + decimal(row@.line) + " | "@ + row@.scope + " | "@ + row@.severity
            + " | "@ + row@.rule + " | "@ + row@.message,
{
    let mut s: String = row.file.clone();
    s.append(" | ");
    s.append(write_u128(row.line as u128).as_str());
    s.append(" | ");
    s.append(row.scope.as_str());
    s.append(" | ");
    s.append(row.severity.as_str());
    s.append(" | ");
    s.append(row.rule.as_str());
    s.append(" | ");
    s.append(row.message.as_str());
    s
}

/// Whether no row comes before an earlier one.
pub open spec fn rows_in_order(rows: Seq<RowView>) -> bool {
    forall|i: int, j: int|
        #![trigger rows[i], rows[j]]
        0 <= i < j < rows.len() ==> !row_before_spec(rows[j], rows[i])
}

/// The rows that are equal to `row` in the order.
pub open spec fn rows_like(rows: Seq<RowView>, row: RowView) -> Seq<RowView> {
    rows.filter(
        |other: RowView| other.file == row.file && other.line == row.line && other.rule == row.rule,
    )
}

/// Of three rows where neither the second comes before the first nor the third before the second,
/// the third does not come before the first.
proof fn lemma_not_before_transitive(a: RowView, b: RowView, c: RowView)
    requires
        !row_before_spec(b, a),
        !row_before_spec(c, b),
    ensures
        !row_before_spec(c, a),
{
    lemma_before_total(a.file, b.file);
    lemma_before_total(b.file, c.file);
    lemma_before_total(a.rule, b.rule);
    lemma_before_total(b.rule, c.rule);
    lemma_before_irreflexive(a.file);
    lemma_before_irreflexive(a.rule);
    lemma_before_irreflexive(b.file);
    lemma_before_irreflexive(b.rule);
    if row_before_spec(c, a) {
        if text_before(a.file, b.file) && text_before(b.file, c.file) {
            lemma_before_transitive(a.file, b.file, c.file);
        }
        if text_before(a.rule, b.rule) && text_before(b.rule, c.rule) {
            lemma_before_transitive(a.rule, b.rule, c.rule);
        }
        if a.file != c.file {
            if text_before(a.file, c.file) {
                lemma_before_transitive(a.file, c.file, a.file);
            }
        } else if a.line == c.line {
            if text_before(a.rule, c.rule) {
                lemma_before_transitive(a.rule, c.rule, a.rule);
            }
            if text_before(a.file, b.file) && text_before(b.file, a.file) {
                lemma_before_transitive(a.file, b.file, a.file);
            }
        } else {
            if text_before(a.file, b.file) && text_before(b.file, a.file) {
                lemma_before_transitive(a.file, b.file, a.file);
            }
        }
    }
}

/// No row comes before one that comes before it.
proof fn lemma_row_before_asymmetric(a: RowView, b: RowView)
    requires
        row_before_spec(a, b),
    ensures
        !row_before_spec(b, a),
{
    if row_before_spec(b, a) {
        if a.file != b.file {
            lemma_before_transitive(a.file, b.file, a.file);
            lemma_before_irreflexive(a.file);
        } else if a.line == b.line {
            lemma_before_transitive(a.rule, b.rule, a.rule);
            lemma_before_irreflexive(a.rule);
        }
    }
}

proof fn lemma_insert_row(sorted: Seq<RowView>, row: RowView)
    requires
        rows_in_order(sorted),
    ensures
        rows_in_order(insert_row(sorted, row)),
        insert_row(sorted, row).to_multiset() == sorted.to_multiset().insert(row),
        forall|k: int|
            0 <= k < insert_row(sorted, row).len() ==> (#[trigger] insert_row(sorted, row)[k] == row
                || sorted.contains(insert_row(sorted, row)[k])),
    decreases sorted.len(),
{
    broadcast use vstd::seq_lib::group_to_multiset_ensures;

    let r = insert_row(sorted, row);
    if sorted.len() > 0 && row_before_spec(row, sorted.last()) {
        let front = sorted.drop_last();
        assert(rows_in_order(front)) by {
            assert forall|i: int, j: int|
                #![trigger front[i], front[j]]
                0 <= i < j < front.len() implies !row_before_spec(front[j], front[i]) by {
                assert(front[i] == sorted[i] && front[j] == sorted[j]);
            }
        }
        lemma_insert_row(front, row);
        let inner = insert_row(front, row);
        assert(front.push(sorted.last()) =~= sorted);
        assert(r.to_multiset() =~= sorted.to_multiset().insert(row));
        assert forall|k: int| 0 <= k < inner.len() implies !row_before_spec(
            sorted.last(),
            #[trigger] inner[k],
        ) by {
            if inner[k] == row {
                lemma_row_before_asymmetric(row, sorted.last());
            } else {
                let m = choose|m: int| 0 <= m < front.len() && front[m] == inner[k];
                assert(sorted[m] == inner[k] && sorted[sorted.len() - 1] == sorted.last());
            }
        }
        assert forall|i: int, j: int|
            #![trigger r[i], r[j]]
            0 <= i < j < r.len() implies !row_before_spec(r[j], r[i]) by {
            assert(r[i] == inner[i]);
            if j < inner.len() {
                assert(r[j] == inner[j]);
            }
        }
        assert forall|k: int| 0 <= k < r.len() implies (#[trigger] r[k] == row || sorted.contains(
            r[k],
        )) by {
            if k < inner.len() {
                assert(r[k] == inner[k]);
                if inner[k] != row {
                    let m = choose|m: int| 0 <= m < front.len() && front[m] == inner[k];
                    assert(sorted[m] == r[k]);
                }
            } else {
                assert(sorted[sorted.len() - 1] == r[k]);
            }
        }
    } else {
        assert forall|i: int, j: int|
            #![trigger r[i], r[j]]
            0 <= i < j < r.len() implies !row_before_spec(r[j], r[i]) by {
            if j == sorted.len() && i < sorted.len() - 1 {
                assert(sorted[sorted.len() - 1] == sorted.last() && r[i] == sorted[i]);
                lemma_not_before_transitive(sorted[i], sorted.last(), row);
            }
        }
        assert forall|k: int| 0 <= k < r.len() implies (#[trigger] r[k] == row || sorted.contains(
            r[k],
        )) by {
            if k < sorted.len() {
                assert(sorted[k] == r[k]);
            }
        }
    }
}

proof fn lemma_insert_row_like(sorted: Seq<RowView>, row: RowView, key: RowView)
    ensures
        rows_like(insert_row(sorted, row), key) == rows_like(sorted.push(row), key),
    decreases sorted.len(),
{
    if sorted.len() > 0 && row_before_spec(row, sorted.last()) {
        let front = sorted.drop_last();
        let like = |other: RowView|
            other.file == key.file && other.line == key.line && other.rule == key.rule;
        lemma_insert_row_like(front, row, key);
        if like(row) && like(sorted.last()) {
            lemma_before_irreflexive(row.rule);
        }
        let inner = insert_row(front, row);
        let last = seq![sorted.last()];
        assert(inner.push(sorted.last()) =~= inner + last);
        assert(sorted.push(row) =~= front + last + seq![row]);
        assert(front.push(row) =~= front + seq![row]);
        Seq::filter_distributes_over_add(inner, last, like);
        Seq::filter_distributes_over_add(front + last, seq![row], like);
        Seq::filter_distributes_over_add(front, last, like);
        Seq::filter_distributes_over_add(front, seq![row], like);
        reveal_with_fuel(Seq::filter, 2);
        assert(last.drop_last() =~= Seq::empty());
        assert(seq![row].drop_last() =~= Seq::empty());
        assert(rows_like(insert_row(sorted, row), key) =~= rows_like(sorted.push(row), key));
    }
}

/// The table holds the given rows, each as often, in order; and rows that are equal in the order
/// stand as they were given.
pub proof fn table_is_ordered(rows: Seq<RowView>, key: RowView)
    ensures
        rows_in_order(sorted_rows(rows)),
        sorted_rows(rows).to_multiset() == rows.to_multiset(),
        rows_like(sorted_rows(rows), key) == rows_like(rows, key),
    decreases rows.len(),
{
    broadcast use vstd::seq_lib::group_to_multiset_ensures;

    if rows.len() > 0 {
        let front = rows.drop_last();
        let like = |other: RowView|
            other.file == key.file && other.line == key.line && other.rule == key.rule;
        table_is_ordered(front, key);
        lemma_insert_row(sorted_rows(front), rows.last());
        lemma_insert_row_like(sorted_rows(front), rows.last(), key);
        let last = seq![rows.last()];
        assert(front.push(rows.last()) =~= rows);
        assert(rows =~= front + last);
        assert(sorted_rows(front).push(rows.last()) =~= sorted_rows(front) + last);
        Seq::filter_distributes_over_add(front, last, like);
        Seq::filter_distributes_over_add(sorted_rows(front), last, like);
    } else {
        assert(sorted_rows(rows) =~= rows);
    }
}

} // verus!
