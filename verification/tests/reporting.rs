//! Findings, their order and their diagnostics; risks, formulas and texts.

use sui_move_analyzer::ast::{Exp, FunctionKey, Loc, ModuleCall, ModuleIdent, Type, UnannotatedExp};
use sui_move_analyzer::domain::formula::{
    formula_tags_from_name, make_var_node, merge_proof_mode, FormulaFacts, FormulaFactor, ProofMode,
    RoundingMode,
};
use sui_move_analyzer::domain::hash::{stable_hash, stable_hash_of_three, stable_hash_of_two};
use sui_move_analyzer::domain::index_set::IndexSet;
use sui_move_analyzer::domain::risk::{origin_key, ConstraintOp, ObligationKind, RiskKind};
use sui_move_analyzer::domain::state::AbstractState;
use sui_move_analyzer::domain::tags::{FormulaTag, RoleSet, SemanticRole, TagSet};
use sui_move_analyzer::domain::value::ValueState;
use sui_move_analyzer::report::{
    collect_diagnostics, normalize_findings, severity_rank, sink_kind_rank, SecurityFinding,
    Severity, SinkKind,
};
use sui_move_analyzer::sinks::{classify_call_sink, sink_priority, SemanticCallSink};
use sui_move_analyzer::text::{
    before, chars_of, contains, join, same_text, sort_texts, to_lower, trim, write_hex_bytes,
};
use sui_move_analyzer::u256::U256;

fn text(s: &str) -> String {
    s.to_string()
}

fn texts(list: &[&str]) -> Vec<String> {
    list.iter().map(|s| s.to_string()).collect()
}

fn loc(start: u32) -> Loc {
    Loc { file_hash: U256::from_u128(1), start, end: start + 1 }
}

fn finding(key: &str, kind: RiskKind, severity: Severity, sink_kind: SinkKind) -> SecurityFinding {
    SecurityFinding {
        key: text(key),
        kind,
        loc: loc(1),
        sink_loc: Some(loc(5)),
        helper_loc: None,
        severity,
        title: text("title"),
        message: text("message"),
        failed_condition: text("x <= 1"),
        path_facts: texts(&["x < 7"]),
        recommendation: text("do better"),
        sink_kind,
        sink_detail: None,
    }
}

#[test]
fn the_gravest_finding_of_a_key_is_kept() {
    let kind = RiskKind::ReachableShiftTruncation;
    let kept = normalize_findings(
        vec![
            finding("b", kind, Severity::Warning, SinkKind::ArithmeticUse),
            finding("a", kind, Severity::Warning, SinkKind::PublicReturn),
            finding("b", kind, Severity::NonblockingError, SinkKind::PublicReturn),
            finding("b", kind, Severity::Warning, SinkKind::FieldWrite),
        ],
    );
    let keys: Vec<&str> = kept.iter().map(|f| f.key.as_str()).collect();
    assert_eq!(keys, vec!["a", "b"]);
    assert_eq!(kept[1].severity, Severity::NonblockingError);
    assert_eq!(normalize_findings(kept.clone()).len(), kept.len());
}

#[test]
fn graver_findings_overshadow_bitwise_warnings() {
    let suspicious = finding(
        "s",
        RiskKind::SuspiciousBitwiseArithmetic,
        Severity::Warning,
        SinkKind::PublicReturn,
    );
    let grave = finding(
        "t",
        RiskKind::ReachableShiftTruncation,
        Severity::NonblockingError,
        SinkKind::PublicReturn,
    );
    let kept = normalize_findings(vec![suspicious.clone(), grave.clone()]);
    assert_eq!(kept.len(), 1);
    assert_eq!(kept[0].key, "t");
    let mut elsewhere = grave.clone();
    elsewhere.sink_loc = Some(loc(9));
    assert_eq!(normalize_findings(vec![suspicious.clone(), elsewhere]).len(), 2);
    let mut mild = grave;
    mild.severity = Severity::Warning;
    assert_eq!(normalize_findings(vec![suspicious, mild]).len(), 2);
}

#[test]
fn findings_are_ranked() {
    assert!(severity_rank(Severity::NonblockingError) > severity_rank(Severity::Warning));
    assert!(severity_rank(Severity::Warning) > severity_rank(Severity::Note));
    assert!(sink_kind_rank(&SinkKind::FieldWrite) > sink_kind_rank(&SinkKind::ArithmeticUse));
}

#[test]
fn diagnostics_name_rule_and_obligation() {
    let mut one = finding(
        "k",
        RiskKind::FakeCheckedShift,
        Severity::NonblockingError,
        SinkKind::PublicReturn,
    );
    one.helper_loc = Some(loc(3));
    let diagnostics = collect_diagnostics(vec![one]);
    assert_eq!(diagnostics.len(), 1);
    let d = &diagnostics[0];
    assert_eq!(d.prefix, "Security ");
    assert_eq!(d.category, 98);
    assert_eq!(d.severity, Severity::NonblockingError);
    assert_eq!(d.primary_label.text, "title");
    assert_eq!(d.primary_label.loc, loc(1));
    assert_eq!(d.secondary_labels.len(), 2);
    assert_eq!(d.secondary_labels[0].text, "value reaches a meaningful downstream sink");
    assert_eq!(d.secondary_labels[1].text, "helper wrapper involved in this path");
    assert!(d.notes.contains(&text("rule id: security/fake-checked-shift")));
    assert!(d.notes.contains(&text("failed obligation: x <= 1")));
    assert!(d.notes.iter().any(|note| note.contains("x < 7")));
}

#[test]
fn keys_hold_rule_and_place() {
    assert_eq!(
        origin_key(RiskKind::InvalidShiftCount, loc(42)),
        "security/invalid-shift-count:0000000000000000000000000000000000000000000000000000000000000001:42",
    );
}

#[test]
fn every_kind_has_its_rule() {
    let kinds = [
        RiskKind::ReachableShiftTruncation,
        RiskKind::FakeCheckedShift,
        RiskKind::ReachableNarrowCast,
        RiskKind::InvalidShiftCount,
        RiskKind::ReachableLossyRightShift,
        RiskKind::DynamicU256Shift,
        RiskKind::SuspiciousBitwiseArithmetic,
        RiskKind::ReachableWeakDenominator,
        RiskKind::ReachableRoundingMismatch,
    ];
    for (i, a) in kinds.iter().enumerate() {
        assert!(a.rule_id().starts_with("security/"));
        for b in &kinds[i + 1..] {
            assert_ne!(a.rule_id(), b.rule_id());
            assert_ne!(origin_key(*a, loc(1)), origin_key(*b, loc(1)));
        }
    }
    assert_eq!(ObligationKind::Absent.describe(), "none");
    assert_eq!(ObligationKind::NonZeroDivisor.describe(), "divisor must be non-zero");
    assert_eq!(ConstraintOp::Le.text(), "<=");
    assert_eq!(ConstraintOp::Ne.text(), "!=");
}

fn call(address: u128, module: &str, name: &str) -> ModuleCall {
    ModuleCall {
        callee: FunctionKey {
            module: ModuleIdent {
                address: U256::from_u128(address),
                name: text(module),
                text: format!("0x{}::{}", address, module),
            },
            name: text(name),
        },
        arguments: vec![Exp { ty: Type::Unit, loc: loc(0), value: UnannotatedExp::Unit }],
    }
}

#[test]
fn framework_transfers_are_critical_sinks() {
    let movement = Some(SemanticCallSink::KnownAssetMovementApi);
    assert_eq!(classify_call_sink(&call(2, "transfer", "public_transfer"), true), movement);
    assert_eq!(classify_call_sink(&call(2, "coin", "split"), false), movement);
    assert_eq!(
        classify_call_sink(&call(3, "coin", "split"), false),
        Some(SemanticCallSink::ExternalBoundary),
    );
    assert_eq!(classify_call_sink(&call(3, "coin", "split"), true), None);
    assert_eq!(classify_call_sink(&call(2, "coin", "value"), true), None);
    assert!(SemanticCallSink::KnownAssetMovementApi.is_critical());
    assert!(!SemanticCallSink::ExternalBoundary.is_critical());
    assert_eq!(SemanticCallSink::ExternalBoundary.label(), "external-boundary-call");
}

#[test]
fn sinks_have_priorities() {
    assert_eq!(sink_priority(&SinkKind::FieldWrite, false), 3);
    assert_eq!(sink_priority(&SinkKind::CallArgument, true), 3);
    assert_eq!(sink_priority(&SinkKind::CallArgument, false), 2);
    assert_eq!(sink_priority(&SinkKind::PublicReturn, true), 3);
    assert_eq!(sink_priority(&SinkKind::PublicReturn, false), 1);
    assert_eq!(sink_priority(&SinkKind::ArithmeticUse, true), 1);
}

#[test]
fn names_suggest_tags() {
    let price = formula_tags_from_name("Sqrt_Price_A");
    assert!(price.contains(FormulaTag::PriceLike));
    assert!(!price.contains(FormulaTag::LiquidityLike));
    let diff = formula_tags_from_name("price_diff");
    assert!(diff.contains(FormulaTag::PriceDiff));
    assert!(formula_tags_from_name("denom").contains(FormulaTag::DenominatorLike));
    assert!(formula_tags_from_name("liquidity").contains(FormulaTag::LiquidityLike));
    assert!(formula_tags_from_name("alpha").is_empty());
}

#[test]
fn tags_and_roles_are_sets() {
    let a = TagSet::empty().with(FormulaTag::PriceLike);
    let b = TagSet::empty().with(FormulaTag::LiquidityLike);
    assert!(a.union(&b).contains(FormulaTag::LiquidityLike));
    assert!(a.intersection(&b).is_empty());
    let roles = RoleSet::empty().with(SemanticRole::DivRhs);
    assert!(roles.contains(SemanticRole::DivRhs));
    assert!(!roles.contains(SemanticRole::DivLhs));
    assert!(roles.intersection(&RoleSet::empty()).is_empty());
    assert!(!roles.union(&RoleSet::empty()).is_empty());
}

#[test]
fn rounding_in_different_directions_conflicts() {
    assert!(RoundingMode::RoundUp.conflicts(RoundingMode::RoundDown));
    assert!(!RoundingMode::RoundUp.conflicts(RoundingMode::RoundUp));
    assert!(!RoundingMode::Exact.conflicts(RoundingMode::RoundDown));
    assert_eq!(RoundingMode::Exact.merge(RoundingMode::RoundUp), RoundingMode::RoundUp);
    assert_eq!(
        merge_proof_mode(ProofMode::Abstract, ProofMode::Heuristic),
        ProofMode::Heuristic,
    );
    assert_eq!(merge_proof_mode(ProofMode::Abstract, ProofMode::Abstract), ProofMode::Abstract);
}

#[test]
fn factors_are_known_by_name() {
    let facts = FormulaFacts::from_name("sqrt_price", true).unwrap();
    assert_eq!(facts.factors.len(), 1);
    assert!(facts.all_factors_strict_positive());
    assert!(facts.any_price_like_factor());
    assert!(FormulaFacts::from_name("alpha", true).is_none());
    let tagged = facts.with_tag(FormulaTag::ClmmDenominator);
    assert!(tagged.tags.contains(FormulaTag::ClmmDenominator));
    let mut other = tagged.clone();
    other.add_role(SemanticRole::MulFactor);
    assert!(other.roles.contains(SemanticRole::MulFactor));
    other.merge_tags(TagSet::empty().with(FormulaTag::LiquidityLike));
    assert!(other.tags.contains(FormulaTag::LiquidityLike));
    let weak = FormulaFactor::new(text("x"), TagSet::empty(), false);
    let strong = FormulaFactor::new(text("x"), TagSet::empty(), true);
    assert!(!strong.join(&weak).unwrap().strict_positive);
    assert!(strong.join(&FormulaFactor::new(text("y"), TagSet::empty(), true)).is_none());
    assert_eq!(make_var_node("x").debug, "x");
    assert_eq!(make_var_node("x").id, make_var_node("x").id);
    assert_ne!(make_var_node("x").id, make_var_node("y").id);
}

#[test]
fn hashes_depend_on_every_part() {
    assert_eq!(stable_hash_of_two("a", "b"), stable_hash(&texts(&["a", "b"])));
    assert_eq!(stable_hash_of_three("a", "b", "c"), stable_hash(&texts(&["a", "b", "c"])));
    assert_ne!(stable_hash_of_two("a", "b"), stable_hash_of_two("b", "a"));
    assert_ne!(stable_hash_of_two("ab", ""), stable_hash_of_two("a", "b"));
}

#[test]
fn sets_of_parameters() {
    let mut set = IndexSet::new();
    assert_eq!(set.single(), None);
    set.insert(3);
    assert_eq!(set.single(), Some(3));
    assert!(set.contains(3));
    assert!(!set.contains(2));
    let mut other = IndexSet::new();
    other.insert(0);
    set.extend(&other);
    assert!(set.contains(0));
    assert_eq!(set.single(), None);
}

#[test]
fn states_join_what_is_reachable() {
    let mut a = AbstractState::new();
    a.locals.insert(0, ValueState::exact_uint(8, U256::from_u128(1)));
    let mut b = AbstractState::new();
    b.locals.insert(0, ValueState::exact_uint(8, U256::from_u128(4)));
    b.locals.insert(1, ValueState::exact_uint(8, U256::from_u128(9)));
    let joined = a.join(&b);
    let value = joined.locals.get(0).unwrap();
    assert_eq!(value.interval.lower, Some(U256::from_u128(1)));
    assert_eq!(value.interval.upper, Some(U256::from_u128(4)));
    assert!(joined.locals.get(1).is_some());
    let kept = AbstractState::bottom().join(&a);
    assert!(!kept.unreachable);
    assert_eq!(kept.locals.get(0).unwrap().exact_value(), Some(U256::from_u128(1)));
    assert_eq!(a.join(&AbstractState::bottom()).locals.get(1).is_none(), true);
    assert_eq!(joined.path_fact_texts().len(), 0);
}

#[test]
fn texts_are_compared_and_searched() {
    assert!(same_text("abc", "abc"));
    assert!(!same_text("abc", "abd"));
    assert!(contains("hello world", "o w"));
    assert!(contains("x", ""));
    assert!(!contains("", "x"));
    assert!(!contains("aab", "abb"));
    assert!(contains("aaab", "aab"));
    assert!(before("a", "b"));
    assert!(before("a", "ab"));
    assert!(!before("b", "a"));
    assert!(!before("a", "a"));
}

#[test]
fn texts_are_changed() {
    assert_eq!(to_lower("MiXeD 1_A"), "mixed 1_a");
    assert_eq!(trim("  a b \n"), "a b");
    assert_eq!(trim(" \t "), "");
    assert_eq!(join(&texts(&["a", "b", "c"]), ", "), "a, b, c");
    assert_eq!(join(&vec![], ", "), "");
    assert_eq!(sort_texts(&texts(&["b", "a", "ab", "a"])), texts(&["a", "a", "ab", "b"]));
    assert_eq!(write_hex_bytes(&vec![1, 0xab]), "01ab");
    assert_eq!(chars_of("a\u{e9}"), vec!['a', '\u{e9}']);
}
