//! Risks: their kinds, where they arise, and the facts that hold on a path.

use crate::ast::{Loc, Var};
use crate::domain::formula::{ProofMode, RoundingMode};
use crate::model::{dup_all, dup_opt, opt_view, same_all, same_opt, views, Dup, SameView};
use crate::text::{decimal, hex, write_hash, write_u128};
use crate::u256::U256;
use vstd::prelude::*;

verus! {

/// A comparison of a variable with a constant.
#[derive(Clone, Copy, Debug, PartialEq, Eq, Structural)]
pub enum ConstraintOp {
    Lt,
    Le,
    Gt,
    Ge,
    Eq,
    Ne,
}

impl ConstraintOp {
    /// Whether the comparison holds of `n` and `bound`.
    pub open spec fn holds(self, n: nat, bound: nat) -> bool {
        match self {
            ConstraintOp::Lt => n < bound,
            ConstraintOp::Le => n <= bound,
            ConstraintOp::Gt => n > bound,
            ConstraintOp::Ge => n >= bound,
            ConstraintOp::Eq => n == bound,
            ConstraintOp::Ne => n != bound,
        }
    }

    /// How the comparison is written.
    pub open spec fn text_spec(self) -> Seq<char> {
        match self {
            ConstraintOp::Lt => "<"@,
            ConstraintOp::Le => "<="@,
            ConstraintOp::Gt => ">"@,
            ConstraintOp::Ge => ">="@,
            ConstraintOp::Eq => "=="@,
            ConstraintOp::Ne => "!="@,
        }
    }

    pub fn text(self) -> (r: &'static str)
        ensures
            r@ == self.text_spec(),
    {
        match self {
            ConstraintOp::Lt => "<",
            ConstraintOp::Le => "<=",
            ConstraintOp::Gt => ">",
            ConstraintOp::Ge => ">=",
            ConstraintOp::Eq => "==",
            ConstraintOp::Ne => "!=",
        }
    }
}

/// A comparison that holds on every way to a program point.
#[derive(Clone, Debug, PartialEq, Eq)]
pub struct PathFact {
    pub var: Option<Var>,
    pub op: ConstraintOp,
    pub bound: Option<U256>,
    pub text: String,
}

#[verifier::ext_equal]
pub struct PathFactView {
    pub var: Option<Var>,
    pub op: ConstraintOp,
    pub bound: Option<U256>,
    pub text: Seq<char>,
}

impl View for PathFact {
    type V = PathFactView;

    open spec fn view(&self) -> PathFactView {
        PathFactView { var: self.var, op: self.op, bound: self.bound, text: self.text@ }
    }
}

impl Dup for PathFact {
    fn dup(&self) -> (r: Self) {
        PathFact { var: self.var, op: self.op, bound: self.bound, text: self.text.clone() }
    }
}

impl SameView for PathFact {
    fn same(&self, other: &Self) -> (r: bool) {
        self.var == other.var && self.op == other.op && self.bound == other.bound && self.text
            == other.text
    }
}

/// What is known of a value as an expression.
#[derive(Clone, Debug, PartialEq, Eq)]
pub enum SymbolicTerm {
    Unknown,
    Const(U256),
    Var(Var),
    AddConst(Var, i128),
    Opaque(String),
}

pub enum SymbolicTermView {
    Unknown,
    Const(U256),
    Var(Var),
    AddConst(Var, i128),
    Opaque(Seq<char>),
}

impl View for SymbolicTerm {
    type V = SymbolicTermView;

    open spec fn view(&self) -> SymbolicTermView {
        match *self {
            SymbolicTerm::Unknown => SymbolicTermView::Unknown,
            SymbolicTerm::Const(c) => SymbolicTermView::Const(c),
            SymbolicTerm::Var(v) => SymbolicTermView::Var(v),
            SymbolicTerm::AddConst(v, c) => SymbolicTermView::AddConst(v, c),
            SymbolicTerm::Opaque(s) => SymbolicTermView::Opaque(s@),
        }
    }
}

impl Dup for SymbolicTerm {
    fn dup(&self) -> (r: Self) {
        match self {
            SymbolicTerm::Unknown => SymbolicTerm::Unknown,
            SymbolicTerm::Const(c) => SymbolicTerm::Const(*c),
            SymbolicTerm::Var(v) => SymbolicTerm::Var(*v),
            SymbolicTerm::AddConst(v, c) => SymbolicTerm::AddConst(*v, *c),
            SymbolicTerm::Opaque(s) => SymbolicTerm::Opaque(s.clone()),
        }
    }
}

impl SameView for SymbolicTerm {
    fn same(&self, other: &Self) -> (r: bool) {
        match (self, other) {
            (SymbolicTerm::Unknown, SymbolicTerm::Unknown) => true,
            (SymbolicTerm::Const(a), SymbolicTerm::Const(b)) => *a == *b,
            (SymbolicTerm::Var(a), SymbolicTerm::Var(b)) => *a == *b,
            (SymbolicTerm::AddConst(a, c), SymbolicTerm::AddConst(b, d)) => *a == *b && *c == *d,
            (SymbolicTerm::Opaque(a), SymbolicTerm::Opaque(b)) => *a == *b,
            _ => false,
        }
    }
}

/// The kinds of risk that are reported.
#[derive(Clone, Copy, Debug, PartialEq, Eq, Structural)]
pub enum RiskKind {
    ReachableShiftTruncation,
    FakeCheckedShift,
    ReachableNarrowCast,
    InvalidShiftCount,
    ReachableLossyRightShift,
    DynamicU256Shift,
    SuspiciousBitwiseArithmetic,
    ReachableWeakDenominator,
    ReachableRoundingMismatch,
}

impl RiskKind {
    pub open spec fn rule_id_spec(self) -> Seq<char> {
        match self {
            RiskKind::ReachableShiftTruncation => "security/reachable-shift-truncation"@,
            RiskKind::FakeCheckedShift => "security/fake-checked-shift"@,
            RiskKind::ReachableNarrowCast => "security/reachable-narrow-cast"@,
            RiskKind::InvalidShiftCount => "security/invalid-shift-count"@,
            RiskKind::ReachableLossyRightShift => "security/reachable-lossy-right-shift"@,
            RiskKind::DynamicU256Shift => "security/dynamic-u256-shift"@,
            RiskKind::SuspiciousBitwiseArithmetic => "security/suspicious-bitwise-arithmetic"@,
            RiskKind::ReachableWeakDenominator => "security/reachable-weak-denominator"@,
            RiskKind::ReachableRoundingMismatch => "security/reachable-rounding-mismatch"@,
        }
    }

    pub fn rule_id(&self) -> (r: &'static str)
        ensures
            r@ == self.rule_id_spec(),
    {
        match self {
            RiskKind::ReachableShiftTruncation => "security/reachable-shift-truncation",
            RiskKind::FakeCheckedShift => "security/fake-checked-shift",
            RiskKind::ReachableNarrowCast => "security/reachable-narrow-cast",
            RiskKind::InvalidShiftCount => "security/invalid-shift-count",
            RiskKind::ReachableLossyRightShift => "security/reachable-lossy-right-shift",
            RiskKind::DynamicU256Shift => "security/dynamic-u256-shift",
            RiskKind::SuspiciousBitwiseArithmetic => "security/suspicious-bitwise-arithmetic",
            RiskKind::ReachableWeakDenominator => "security/reachable-weak-denominator",
            RiskKind::ReachableRoundingMismatch => "security/reachable-rounding-mismatch",
        }
    }
}

/// What has to be proved for a risk to be gone.
#[derive(Clone, Copy, Debug, PartialEq, Eq, Structural)]
pub enum ObligationKind {
    /// Nothing beyond the failed condition itself.
    Absent,
    NonZeroDivisor,
    IndependentFactorPositivity,
    RoundingConsistency,
}

impl ObligationKind {
    pub open spec fn describe_spec(self) -> Seq<char> {
        match self {
            ObligationKind::Absent => "none"@,
            ObligationKind::NonZeroDivisor => "divisor must be non-zero"@,
            ObligationKind::IndependentFactorPositivity =>
                "each independent denominator factor must be strictly positive"@,
            ObligationKind::RoundingConsistency =>
                "rounding mode must be consistent for semantically related quantities"@,
        }
    }

    pub fn describe(self) -> (r: &'static str)
        ensures
            r@ == self.describe_spec(),
    {
        match self {
            ObligationKind::Absent => "none",
            ObligationKind::NonZeroDivisor => "divisor must be non-zero",
            ObligationKind::IndependentFactorPositivity => {
                "each independent denominator factor must be strictly positive"
            },
            ObligationKind::RoundingConsistency => {
                "rounding mode must be consistent for semantically related quantities"
            },
        }
    }
}

/// The operation that a risk comes from, and what could not be proved there.
#[derive(Clone, Debug, PartialEq, Eq)]
pub struct RiskOrigin {
    pub key: String,
    pub kind: RiskKind,
    pub loc: Loc,
    pub source_param_index: Option<usize>,
    pub width: Option<u16>,
    pub shift_amount: Option<u8>,
    pub threshold: Option<U256>,
    pub title: String,
    pub expr_text: String,
    pub failed_condition: String,
    pub path_facts: Vec<String>,
    pub source_interval: String,
    pub source_name: String,
    pub helper_name: Option<String>,
    pub helper_like: bool,
    pub guard_mismatch: bool,
    pub obligation_kind: ObligationKind,
    pub proof_mode: ProofMode,
    pub rounding_mode: Option<RoundingMode>,
}

#[verifier::ext_equal]
pub struct RiskOriginView {
    pub key: Seq<char>,
    pub kind: RiskKind,
    pub loc: Loc,
    pub source_param_index: Option<usize>,
    pub width: Option<u16>,
    pub shift_amount: Option<u8>,
    pub threshold: Option<U256>,
    pub title: Seq<char>,
    pub expr_text: Seq<char>,
    pub failed_condition: Seq<char>,
    pub path_facts: Seq<Seq<char>>,
    pub source_interval: Seq<char>,
    pub source_name: Seq<char>,
    pub helper_name: Option<Seq<char>>,
    pub helper_like: bool,
    pub guard_mismatch: bool,
    pub obligation_kind: ObligationKind,
    pub proof_mode: ProofMode,
    pub rounding_mode: Option<RoundingMode>,
}

impl View for RiskOrigin {
    type V = RiskOriginView;

    open spec fn view(&self) -> RiskOriginView {
        RiskOriginView {
            key: self.key@,
            kind: self.kind,
            loc: self.loc,
            source_param_index: self.source_param_index,
            width: self.width,
            shift_amount: self.shift_amount,
            threshold: self.threshold,
            title: self.title@,
            expr_text: self.expr_text@,
            failed_condition: self.failed_condition@,
            path_facts: views(self.path_facts@),
            source_interval: self.source_interval@,
            source_name: self.source_name@,
            helper_name: opt_view(self.helper_name),
            helper_like: self.helper_like,
            guard_mismatch: self.guard_mismatch,
            obligation_kind: self.obligation_kind,
            proof_mode: self.proof_mode,
            rounding_mode: self.rounding_mode,
        }
    }
}

impl Dup for RiskOrigin {
    fn dup(&self) -> (r: Self) {
        RiskOrigin {
            key: self.key.clone(),
            kind: self.kind,
            loc: self.loc,
            source_param_index: self.source_param_index,
            width: self.width,
            shift_amount: self.shift_amount,
            threshold: self.threshold,
            title: self.title.clone(),
            expr_text: self.expr_text.clone(),
            failed_condition: self.failed_condition.clone(),
            path_facts: dup_all(&self.path_facts),
            source_interval: self.source_interval.clone(),
            source_name: self.source_name.clone(),
            helper_name: dup_opt(&self.helper_name),
            helper_like: self.helper_like,
            guard_mismatch: self.guard_mismatch,
            obligation_kind: self.obligation_kind,
            proof_mode: self.proof_mode,
            rounding_mode: self.rounding_mode,
        }
    }
}

impl SameView for RiskOrigin {
    fn same(&self, other: &Self) -> (r: bool) {
        self.key == other.key && self.kind == other.kind && self.loc == other.loc
            && self.source_param_index == other.source_param_index && self.width == other.width
            && self.shift_amount == other.shift_amount && self.threshold == other.threshold
            && self.title == other.title && self.expr_text == other.expr_text
            && self.failed_condition == other.failed_condition && same_all(
            &self.path_facts,
            &other.path_facts,
        ) && self.source_interval == other.source_interval && self.source_name == other.source_name
            && same_opt(&self.helper_name, &other.helper_name) && self.helper_like
            == other.helper_like && self.guard_mismatch == other.guard_mismatch
            && self.obligation_kind == other.obligation_kind && self.proof_mode == other.proof_mode
            && self.rounding_mode == other.rounding_mode
    }
}

/// The key of a risk of this kind at this place.
pub open spec fn origin_key_spec(kind: RiskKind, loc: Loc) -> Seq<char> {
    kind.rule_id_spec() + ":"@ + hex(loc.file_hash@, 64) + ":"@ + decimal(loc.start as nat)
}

pub fn origin_key(kind: RiskKind, loc: Loc) -> (r: String)
    ensures
        r@ == origin_key_spec(kind, loc),
{
    let mut s: String = kind.rule_id().to_owned();
    s.append(":");
    s.append(write_hash(loc.file_hash).as_str());
    s.append(":");
    s.append(write_u128(loc.start as u128).as_str());
    s
}

/// Whether no origin has this key.
pub open spec fn key_is_new(origins: Seq<RiskOriginView>, key: Seq<char>) -> bool {
    forall|i: int| 0 <= i < origins.len() ==> (#[trigger] origins[i]).key != key
}

/// The origins with one more, where its key is new.
pub open spec fn push_new(origins: Seq<RiskOriginView>, origin: RiskOriginView) -> Seq<
    RiskOriginView,
> {
    if key_is_new(origins, origin.key) {
        origins.push(origin)
    } else {
        origins
    }
}

/// The origins with the first `n` of `extra` whose keys are new.
pub open spec fn push_all_new(
    origins: Seq<RiskOriginView>,
    extra: Seq<RiskOriginView>,
    n: nat,
) -> Seq<RiskOriginView>
    decreases n,
{
    if n == 0 || n > extra.len() {
        origins
    } else {
        push_new(push_all_new(origins, extra, (n - 1) as nat), extra[n - 1])
    }
}

pub fn push_origin(origins: &mut Vec<RiskOrigin>, origin: RiskOrigin)
    ensures
        views(final(origins)@) == push_new(views(old(origins)@), origin@),
{
    let mut i: usize = 0;
    while i < origins.len()
        invariant
            i <= origins@.len(),
            origins@ == old(origins)@,
            forall|j: int| 0 <= j < i ==> (#[trigger] views(origins@)[j]).key != origin@.key,
        decreases origins@.len() - i,
    {
        if origins[i].key == origin.key {
            assert(views(origins@)[i as int].key == origin@.key);
            return;
        }
        i = i + 1;
    }
    origins.push(origin);
    assert(views(origins@) =~= views(old(origins)@).push(origin@));
}

pub fn push_origins(origins: &mut Vec<RiskOrigin>, extra: &Vec<RiskOrigin>)
    ensures
        views(final(origins)@) == push_all_new(views(old(origins)@), views(extra@), extra@.len()),
{
    let ghost start = views(origins@);
    let mut i: usize = 0;
    while i < extra.len()
        invariant
            i <= extra@.len(),
            views(origins@) == push_all_new(start, views(extra@), i as nat),
        decreases extra@.len() - i,
    {
        push_origin(origins, extra[i].dup());
        i = i + 1;
    }
}

} // verus!
