//! The rules: what each kind of risk is, and when an operation carries it.

pub mod fake_checked_shift;
pub mod invalid_shift_count;
pub mod lossy_right_shift;
pub mod narrow_cast;
pub mod rounding_mismatch;
pub mod shift_truncation;
pub mod suspicious_bitwise;
pub mod weak_denominator;

use crate::ast::Loc;
use crate::domain::risk::RiskKind;
use crate::model::views;
use vstd::prelude::*;

verus! {

/// What every rule is told about the place that it checks.
#[derive(Clone, Debug)]
pub struct RuleCtx {
    /// Where the expression that is checked stands.
    pub exp_loc: Loc,
    /// The name of the function, for messages and keys.
    pub fn_name: String,
    /// The path facts at this point, as texts.
    pub path_facts: Vec<String>,
}

#[verifier::ext_equal]
pub struct RuleCtxView {
    pub exp_loc: Loc,
    pub fn_name: Seq<char>,
    pub path_facts: Seq<Seq<char>>,
}

impl View for RuleCtx {
    type V = RuleCtxView;

    open spec fn view(&self) -> RuleCtxView {
        RuleCtxView {
            exp_loc: self.exp_loc,
            fn_name: self.fn_name@,
            path_facts: views(self.path_facts@),
        }
    }
}

/// An entry of the registry of rules.
pub trait Rule {
    spec fn kind_spec(&self) -> RiskKind;

    spec fn description_spec(&self) -> Seq<char>;

    fn rule_id(&self) -> (r: &'static str)
        ensures
            r@ == self.kind_spec().rule_id_spec(),
    ;

    fn kind(&self) -> (r: RiskKind)
        ensures
            r == self.kind_spec(),
    ;

    fn short_description(&self) -> (r: &'static str)
        ensures
            r@ == self.description_spec(),
    ;
}

pub struct ShiftTruncationRule;

pub struct FakeCheckedShiftRule;

pub struct InvalidShiftCountRule;

pub struct NarrowCastRule;

pub struct LossyRightShiftRule;

pub struct SuspiciousBitwiseArithmeticRule;

pub struct WeakDenominatorRule;

pub struct RoundingMismatchRule;

impl Rule for ShiftTruncationRule {
    open spec fn kind_spec(&self) -> RiskKind {
        RiskKind::ReachableShiftTruncation
    }

    open spec fn description_spec(&self) -> Seq<char> {
        "Left-shift discards high bits when the input exceeds the safe threshold"@
    }

    fn rule_id(&self) -> (r: &'static str) {
        "security/reachable-shift-truncation"
    }

    fn kind(&self) -> (r: RiskKind) {
        RiskKind::ReachableShiftTruncation
    }

    fn short_description(&self) -> (r: &'static str) {
        "Left-shift discards high bits when the input exceeds the safe threshold"
    }
}

impl Rule for FakeCheckedShiftRule {
    open spec fn kind_spec(&self) -> RiskKind {
        RiskKind::FakeCheckedShift
    }

    open spec fn description_spec(&self) -> Seq<char> {
        "A custom overflow guard exists but is weaker than the true no-truncation bound"@
    }

    fn rule_id(&self) -> (r: &'static str) {
        "security/fake-checked-shift"
    }

    fn kind(&self) -> (r: RiskKind) {
        RiskKind::FakeCheckedShift
    }

    fn short_description(&self) -> (r: &'static str) {
        "A custom overflow guard exists but is weaker than the true no-truncation bound"
    }
}

impl Rule for InvalidShiftCountRule {
    open spec fn kind_spec(&self) -> RiskKind {
        RiskKind::InvalidShiftCount
    }

    open spec fn description_spec(&self) -> Seq<char> {
        "Shift count is >= type width, which aborts at runtime"@
    }

    fn rule_id(&self) -> (r: &'static str) {
        "security/invalid-shift-count"
    }

    fn kind(&self) -> (r: RiskKind) {
        RiskKind::InvalidShiftCount
    }

    fn short_description(&self) -> (r: &'static str) {
        "Shift count is >= type width, which aborts at runtime"
    }
}

impl Rule for NarrowCastRule {
    open spec fn kind_spec(&self) -> RiskKind {
        RiskKind::ReachableNarrowCast
    }

    open spec fn description_spec(&self) -> Seq<char> {
        "Cast to a narrower type can abort when the value exceeds the destination max"@
    }

    fn rule_id(&self) -> (r: &'static str) {
        "security/reachable-narrow-cast"
    }

    fn kind(&self) -> (r: RiskKind) {
        RiskKind::ReachableNarrowCast
    }

    fn short_description(&self) -> (r: &'static str) {
        "Cast to a narrower type can abort when the value exceeds the destination max"
    }
}

impl Rule for LossyRightShiftRule {
    open spec fn kind_spec(&self) -> RiskKind {
        RiskKind::ReachableLossyRightShift
    }

    open spec fn description_spec(&self) -> Seq<char> {
        "Right-shift used as division silently discards non-zero low bits"@
    }

    fn rule_id(&self) -> (r: &'static str) {
        "security/reachable-lossy-right-shift"
    }

    fn kind(&self) -> (r: RiskKind) {
        RiskKind::ReachableLossyRightShift
    }

    fn short_description(&self) -> (r: &'static str) {
        "Right-shift used as division silently discards non-zero low bits"
    }
}

impl Rule for SuspiciousBitwiseArithmeticRule {
    open spec fn kind_spec(&self) -> RiskKind {
        RiskKind::SuspiciousBitwiseArithmetic
    }

    open spec fn description_spec(&self) -> Seq<char> {
        "Bitwise result whose exact range is unknown feeds downstream arithmetic"@
    }

    fn rule_id(&self) -> (r: &'static str) {
        "security/suspicious-bitwise-arithmetic"
    }

    fn kind(&self) -> (r: RiskKind) {
        RiskKind::SuspiciousBitwiseArithmetic
    }

    fn short_description(&self) -> (r: &'static str) {
        "Bitwise result whose exact range is unknown feeds downstream arithmetic"
    }
}

impl Rule for WeakDenominatorRule {
    open spec fn kind_spec(&self) -> RiskKind {
        RiskKind::ReachableWeakDenominator
    }

    open spec fn description_spec(&self) -> Seq<char> {
        "Denominator may be zero or its individual factors are not proven strictly positive"@
    }

    fn rule_id(&self) -> (r: &'static str) {
        "security/reachable-weak-denominator"
    }

    fn kind(&self) -> (r: RiskKind) {
        RiskKind::ReachableWeakDenominator
    }

    fn short_description(&self) -> (r: &'static str) {
        "Denominator may be zero or its individual factors are not proven strictly positive"
    }
}

impl Rule for RoundingMismatchRule {
    open spec fn kind_spec(&self) -> RiskKind {
        RiskKind::ReachableRoundingMismatch
    }

    open spec fn description_spec(&self) -> Seq<char> {
        "Semantically related quantity reaches a sink under inconsistent rounding modes"@
    }

    fn rule_id(&self) -> (r: &'static str) {
        "security/reachable-rounding-mismatch"
    }

    fn kind(&self) -> (r: RiskKind) {
        RiskKind::ReachableRoundingMismatch
    }

    fn short_description(&self) -> (r: &'static str) {
        "Semantically related quantity reaches a sink under inconsistent rounding modes"
    }
}

/// The kinds of all rules, the most urgent first.
pub open spec fn rule_order() -> Seq<RiskKind> {
    seq![
        RiskKind::InvalidShiftCount,
        RiskKind::FakeCheckedShift,
        RiskKind::ReachableShiftTruncation,
        RiskKind::ReachableNarrowCast,
        RiskKind::ReachableLossyRightShift,
        RiskKind::ReachableWeakDenominator,
        RiskKind::ReachableRoundingMismatch,
        RiskKind::SuspiciousBitwiseArithmetic,
    ]
}

/// All rules, the most urgent first.
pub fn all_rules() -> (r: Vec<Box<dyn Rule>>)
    ensures
        r@.len() == rule_order().len(),
        forall|i: int| 0 <= i < r@.len() ==> (#[trigger] r@[i]).kind_spec() == rule_order()[i],
{
    vec![
        Box::new(InvalidShiftCountRule),
        Box::new(FakeCheckedShiftRule),
        Box::new(ShiftTruncationRule),
        Box::new(NarrowCastRule),
        Box::new(LossyRightShiftRule),
        Box::new(WeakDenominatorRule),
        Box::new(RoundingMismatchRule),
        Box::new(SuspiciousBitwiseArithmeticRule),
    ]
}

} // verus!
