//! Where a quantity comes from: its expression, its factors, and how it was rounded.

use crate::ast::Loc;
use crate::domain::hash::{stable_hash_of_two, stable_hash_spec};
use crate::domain::tags::{FormulaTag, RoleSet, SemanticRole, TagSet};
use crate::model::{
    add_missing, copy_all, dup_all, dup_opt, extend_missing, extend_missing_plain, opt_view,
    same_all, same_opt, same_plain, views, Dup, SameView,
};
use crate::text::{contains, contains_text, lower, to_lower};
use vstd::prelude::*;

verus! {

/// The operation at the root of an expression.
#[derive(Clone, Copy, Debug, PartialEq, Eq, Structural)]
pub enum ExprOp {
    Const,
    Var,
    Add,
    Sub,
    Mul,
    Div,
    Mod,
    Shl,
    Shr,
}

/// How well founded a claim about an obligation is.
#[derive(Clone, Copy, Debug, PartialEq, Eq, Structural)]
pub enum ProofMode {
    Abstract,
    Heuristic,
}

/// How a quantity was rounded on the way to its value.
#[derive(Clone, Copy, Debug, PartialEq, Eq, Structural)]
pub enum RoundingMode {
    Exact,
    RoundUp,
    RoundDown,
    Unknown,
}

/// An expression, named by a hash of its structure.
#[derive(Clone, Debug, PartialEq, Eq)]
pub struct ExprNode {
    pub id: u64,
    pub op: ExprOp,
    pub children: Vec<u64>,
    pub debug: String,
}

#[verifier::ext_equal]
pub struct ExprNodeView {
    pub id: u64,
    pub op: ExprOp,
    pub children: Seq<u64>,
    pub debug: Seq<char>,
}

/// A factor of a quantity, and whether it is known to be above zero.
#[derive(Clone, Debug, PartialEq, Eq)]
pub struct FormulaFactor {
    pub id: u64,
    pub name: String,
    pub tags: TagSet,
    pub roles: RoleSet,
    pub strict_positive: bool,
    pub source_locs: Vec<Loc>,
    pub proof_mode: ProofMode,
}

#[verifier::ext_equal]
pub struct FormulaFactorView {
    pub id: u64,
    pub name: Seq<char>,
    pub tags: TagSet,
    pub roles: RoleSet,
    pub strict_positive: bool,
    pub source_locs: Seq<Loc>,
    pub proof_mode: ProofMode,
}

/// What is known about the formula behind a value.
#[derive(Clone, Debug, PartialEq, Eq)]
pub struct FormulaFacts {
    pub tags: TagSet,
    pub factors: Vec<FormulaFactor>,
    pub root_expr: Option<ExprNode>,
    pub roles: RoleSet,
    pub rounding_mode: RoundingMode,
    pub rounding_trace: Vec<String>,
    /// Whether different paths rounded the value in different directions.
    pub rounding_conflict: bool,
}

#[verifier::ext_equal]
pub struct FormulaFactsView {
    pub tags: TagSet,
    pub factors: Seq<FormulaFactorView>,
    pub root_expr: Option<ExprNodeView>,
    pub roles: RoleSet,
    pub rounding_mode: RoundingMode,
    pub rounding_trace: Seq<Seq<char>>,
    pub rounding_conflict: bool,
}

impl View for ExprNode {
    type V = ExprNodeView;

    open spec fn view(&self) -> ExprNodeView {
        ExprNodeView {
            id: self.id,
            op: self.op,
            children: self.children@,
            debug: self.debug@,
        }
    }
}

impl Dup for ExprNode {
    fn dup(&self) -> (r: Self) {
        ExprNode {
            id: self.id,
            op: self.op,
            children: copy_all(&self.children),
            debug: self.debug.clone(),
        }
    }
}

impl SameView for ExprNode {
    fn same(&self, other: &Self) -> (r: bool) {
        self.id == other.id && self.op == other.op && same_plain(&self.children, &other.children)
            && self.debug == other.debug
    }
}

impl View for FormulaFactor {
    type V = FormulaFactorView;

    open spec fn view(&self) -> FormulaFactorView {
        FormulaFactorView {
            id: self.id,
            name: self.name@,
            tags: self.tags,
            roles: self.roles,
            strict_positive: self.strict_positive,
            source_locs: self.source_locs@,
            proof_mode: self.proof_mode,
        }
    }
}

impl Dup for FormulaFactor {
    fn dup(&self) -> (r: Self) {
        FormulaFactor {
            id: self.id,
            name: self.name.clone(),
            tags: self.tags,
            roles: self.roles,
            strict_positive: self.strict_positive,
            source_locs: copy_all(&self.source_locs),
            proof_mode: self.proof_mode,
        }
    }
}

impl SameView for FormulaFactor {
    fn same(&self, other: &Self) -> (r: bool) {
        self.id == other.id && self.name == other.name && self.tags == other.tags && self.roles
            == other.roles && self.strict_positive == other.strict_positive && same_plain(
            &self.source_locs,
            &other.source_locs,
        ) && self.proof_mode == other.proof_mode
    }
}

impl View for FormulaFacts {
    type V = FormulaFactsView;

    open spec fn view(&self) -> FormulaFactsView {
        FormulaFactsView {
            tags: self.tags,
            factors: views(self.factors@),
            root_expr: opt_view(self.root_expr),
            roles: self.roles,
            rounding_mode: self.rounding_mode,
            rounding_trace: views(self.rounding_trace@),
            rounding_conflict: self.rounding_conflict,
        }
    }
}

impl Dup for FormulaFacts {
    fn dup(&self) -> (r: Self) {
        FormulaFacts {
            tags: self.tags,
            factors: dup_all(&self.factors),
            root_expr: dup_opt(&self.root_expr),
            roles: self.roles,
            rounding_mode: self.rounding_mode,
            rounding_trace: dup_all(&self.rounding_trace),
            rounding_conflict: self.rounding_conflict,
        }
    }
}

impl SameView for FormulaFacts {
    fn same(&self, other: &Self) -> (r: bool) {
        self.tags == other.tags && same_all(&self.factors, &other.factors) && same_opt(
            &self.root_expr,
            &other.root_expr,
        ) && self.roles == other.roles && self.rounding_mode == other.rounding_mode && same_all(
            &self.rounding_trace,
            &other.rounding_trace,
        ) && self.rounding_conflict == other.rounding_conflict
    }
}

impl ExprOp {
    /// The name of the operation.
    pub open spec fn name_spec(self) -> Seq<char> {
        match self {
            ExprOp::Const => "Const"@,
            ExprOp::Var => "Var"@,
            ExprOp::Add => "Add"@,
            ExprOp::Sub => "Sub"@,
            ExprOp::Mul => "Mul"@,
            ExprOp::Div => "Div"@,
            ExprOp::Mod => "Mod"@,
            ExprOp::Shl => "Shl"@,
            ExprOp::Shr => "Shr"@,
        }
    }

    pub fn name(self) -> (r: &'static str)
        ensures
            r@ == self.name_spec(),
    {
        match self {
            ExprOp::Const => "Const",
            ExprOp::Var => "Var",
            ExprOp::Add => "Add",
            ExprOp::Sub => "Sub",
            ExprOp::Mul => "Mul",
            ExprOp::Div => "Div",
            ExprOp::Mod => "Mod",
            ExprOp::Shl => "Shl",
            ExprOp::Shr => "Shr",
        }
    }
}

impl ProofMode {
    /// The name of the mode, as messages show it.
    pub open spec fn name_spec(self) -> Seq<char> {
        match self {
            ProofMode::Abstract => "Abstract"@,
            ProofMode::Heuristic => "Heuristic"@,
        }
    }

    pub fn name(self) -> (r: &'static str)
        ensures
            r@ == self.name_spec(),
    {
        match self {
            ProofMode::Abstract => "Abstract",
            ProofMode::Heuristic => "Heuristic",
        }
    }
}

impl RoundingMode {
    /// The name of the mode, as messages show it.
    pub open spec fn name_spec(self) -> Seq<char> {
        match self {
            RoundingMode::Exact => "Exact"@,
            RoundingMode::RoundUp => "RoundUp"@,
            RoundingMode::RoundDown => "RoundDown"@,
            RoundingMode::Unknown => "Unknown"@,
        }
    }

    /// The mode of a quantity made from one of each mode: exactness gives way, and two
    /// directions leave it unknown.
    pub open spec fn merge_spec(self, other: RoundingMode) -> RoundingMode {
        if self == other || other is Exact {
            self
        } else if self is Exact {
            other
        } else {
            RoundingMode::Unknown
        }
    }

    /// Whether two modes round in different ways.
    pub open spec fn conflicts_with(self, other: RoundingMode) -> bool {
        self != other && self !is Exact && other !is Exact
    }

    pub fn name(self) -> (r: &'static str)
        ensures
            r@ == self.name_spec(),
    {
        match self {
            RoundingMode::Exact => "Exact",
            RoundingMode::RoundUp => "RoundUp",
            RoundingMode::RoundDown => "RoundDown",
            RoundingMode::Unknown => "Unknown",
        }
    }

    pub fn merge(self, other: RoundingMode) -> (r: RoundingMode)
        ensures
            r == self.merge_spec(other),
    {
        if self == other || other == RoundingMode::Exact {
            self
        } else if self == RoundingMode::Exact {
            other
        } else {
            RoundingMode::Unknown
        }
    }

    pub fn conflicts(self, other: RoundingMode) -> (r: bool)
        ensures
            r == self.conflicts_with(other),
    {
        self != other && self != RoundingMode::Exact && other != RoundingMode::Exact
    }
}

/// The stronger claim that still holds of both: agreement, or a heuristic.
pub open spec fn merge_proof_mode_spec(a: ProofMode, b: ProofMode) -> ProofMode {
    if a == b {
        a
    } else {
        ProofMode::Heuristic
    }
}

pub fn merge_proof_mode(a: ProofMode, b: ProofMode) -> (r: ProofMode)
    ensures
        r == merge_proof_mode_spec(a, b),
{
    if a == b {
        a
    } else {
        ProofMode::Heuristic
    }
}

/// The hash that names a variable.
pub open spec fn var_id(name: Seq<char>) -> u64 {
    stable_hash_spec(seq!["var"@, name])
}

/// The expression that is just a variable.
pub open spec fn var_node(name: Seq<char>) -> ExprNodeView {
    ExprNodeView { id: var_id(name), op: ExprOp::Var, children: Seq::empty(), debug: name }
}

pub fn make_var_node(name: &str) -> (r: ExprNode)
    ensures
        r@ == var_node(name@),
{
    ExprNode {
        id: stable_hash_of_two("var", name),
        op: ExprOp::Var,
        children: Vec::new(),
        debug: name.to_owned(),
    }
}

impl FormulaFactorView {
    /// A factor that is a variable.
    pub open spec fn of_name(
        name: Seq<char>,
        tags: TagSet,
        strict_positive: bool,
    ) -> FormulaFactorView {
        FormulaFactorView {
            id: var_id(name),
            name,
            tags,
            roles: RoleSet::empty_spec(),
            strict_positive,
            source_locs: Seq::empty(),
            proof_mode: ProofMode::Abstract,
        }
    }

    /// What is known of the factor on both of two paths, where it is the same factor.
    pub open spec fn join_spec(self, other: FormulaFactorView) -> Option<FormulaFactorView> {
        if self.name != other.name {
            None
        } else {
            Some(
                FormulaFactorView {
                    id: self.id,
                    name: self.name,
                    tags: self.tags.intersection_spec(other.tags),
                    roles: self.roles.intersection_spec(other.roles),
                    strict_positive: self.strict_positive && other.strict_positive,
                    source_locs: add_missing(
                        self.source_locs,
                        other.source_locs,
                        other.source_locs.len(),
                    ),
                    proof_mode: merge_proof_mode_spec(self.proof_mode, other.proof_mode),
                },
            )
        }
    }

    /// What is known of a factor that occurs on both sides of one operation.
    pub open spec fn merge_spec(self, other: FormulaFactorView) -> FormulaFactorView {
        FormulaFactorView {
            tags: self.tags.union_spec(other.tags),
            roles: self.roles.union_spec(other.roles),
            strict_positive: self.strict_positive && other.strict_positive,
            source_locs: add_missing(
                self.source_locs,
                other.source_locs,
                other.source_locs.len(),
            ),
            proof_mode: merge_proof_mode_spec(self.proof_mode, other.proof_mode),
            ..self
        }
    }
}

impl FormulaFactor {
    pub fn new(name: String, tags: TagSet, strict_positive: bool) -> (r: Self)
        ensures
            r@ == FormulaFactorView::of_name(name@, tags, strict_positive),
    {
        FormulaFactor {
            id: stable_hash_of_two("var", name.as_str()),
            name,
            tags,
            roles: RoleSet::empty(),
            strict_positive,
            source_locs: Vec::new(),
            proof_mode: ProofMode::Abstract,
        }
    }

    pub fn join(&self, other: &Self) -> (r: Option<Self>)
        ensures
            opt_view(r) == self@.join_spec(other@),
    {
        if self.name != other.name {
            return None;
        }
        let mut source_locs: Vec<Loc> = copy_all(&self.source_locs);
        extend_missing_plain(&mut source_locs, &other.source_locs);
        Some(
            FormulaFactor {
                id: self.id,
                name: self.name.clone(),
                tags: self.tags.intersection(&other.tags),
                roles: self.roles.intersection(&other.roles),
                strict_positive: self.strict_positive && other.strict_positive,
                source_locs,
                proof_mode: merge_proof_mode(self.proof_mode, other.proof_mode),
            },
        )
    }

    /// The factor as it is known when it occurs on both sides of one operation.
    pub fn merge(&self, other: &Self) -> (r: Self)
        ensures
            r@ == self@.merge_spec(other@),
    {
        let mut source_locs: Vec<Loc> = copy_all(&self.source_locs);
        extend_missing_plain(&mut source_locs, &other.source_locs);
        FormulaFactor {
            id: self.id,
            name: self.name.clone(),
            tags: self.tags.union(&other.tags),
            roles: self.roles.union(&other.roles),
            strict_positive: self.strict_positive && other.strict_positive,
            source_locs,
            proof_mode: merge_proof_mode(self.proof_mode, other.proof_mode),
        }
    }
}

/// Where a factor of this name first stands from `from` on.
pub open spec fn find_name(
    factors: Seq<FormulaFactorView>,
    name: Seq<char>,
    from: nat,
) -> Option<int>
    decreases factors.len() - from,
{
    if from >= factors.len() {
        None
    } else if factors[from as int].name == name {
        Some(from as int)
    } else {
        find_name(factors, name, from + 1)
    }
}

/// The joins of the first `n` factors with their namesakes on the other side.
pub open spec fn join_factors(
    factors: Seq<FormulaFactorView>,
    others: Seq<FormulaFactorView>,
    n: nat,
) -> Seq<FormulaFactorView>
    decreases n,
{
    if n == 0 || n > factors.len() {
        Seq::empty()
    } else {
        let before = join_factors(factors, others, (n - 1) as nat);
        match find_name(others, factors[n - 1].name, 0) {
            Some(j) => match factors[n - 1].join_spec(others[j]) {
                Some(joined) => before.push(joined),
                None => before,
            },
            None => before,
        }
    }
}

impl FormulaFactsView {
    /// What is known of a value that is a variable of this name.
    pub open spec fn from_name_spec(
        name: Seq<char>,
        strict_positive: bool,
    ) -> Option<FormulaFactsView> {
        let tags = tags_of_name(name);
        if tags == TagSet::empty_spec() {
            None
        } else {
            Some(Self::of_var(name, tags, strict_positive))
        }
    }

    pub open spec fn of_var(
        name: Seq<char>,
        tags: TagSet,
        strict_positive: bool,
    ) -> FormulaFactsView {
        FormulaFactsView {
            tags,
            factors: seq![FormulaFactorView::of_name(name, tags, strict_positive)],
            root_expr: Some(var_node(name)),
            roles: RoleSet::empty_spec(),
            rounding_mode: RoundingMode::Exact,
            rounding_trace: Seq::empty(),
            rounding_conflict: false,
        }
    }

    pub open spec fn join_spec(self, other: FormulaFactsView) -> Option<FormulaFactsView> {
        let tags = self.tags.intersection_spec(other.tags);
        let factors = join_factors(self.factors, other.factors, self.factors.len());
        if tags == TagSet::empty_spec() && factors.len() == 0 {
            None
        } else {
            Some(
                FormulaFactsView {
                    tags,
                    factors,
                    root_expr: if self.root_expr == other.root_expr {
                        self.root_expr
                    } else {
                        None
                    },
                    roles: self.roles.intersection_spec(other.roles),
                    rounding_mode: self.rounding_mode.merge_spec(other.rounding_mode),
                    rounding_trace: add_missing(
                        self.rounding_trace,
                        other.rounding_trace,
                        other.rounding_trace.len(),
                    ),
                    rounding_conflict: self.rounding_conflict || other.rounding_conflict
                        || self.rounding_mode.conflicts_with(other.rounding_mode),
                },
            )
        }
    }

    /// Whether there are factors, and each is known to be above zero.
    pub open spec fn all_factors_positive(self) -> bool {
        self.factors.len() > 0 && forall|i: int|
            0 <= i < self.factors.len() ==> (#[trigger] self.factors[i]).strict_positive
    }
}

impl FormulaFacts {
    pub fn from_name(name: &str, strict_positive: bool) -> (r: Option<Self>)
        ensures
            opt_view(r) == FormulaFactsView::from_name_spec(name@, strict_positive),
    {
        let tags: TagSet = formula_tags_from_name(name);
        if tags.is_empty() {
            return None;
        }
        Some(Self::of_var(name, tags, strict_positive))
    }

    /// What is known of a variable that carries these tags.
    pub fn of_var(name: &str, tags: TagSet, strict_positive: bool) -> (r: Self)
        ensures
            r@ == FormulaFactsView::of_var(name@, tags, strict_positive),
    {
        let mut factors: Vec<FormulaFactor> = Vec::new();
        factors.push(FormulaFactor::new(name.to_owned(), tags, strict_positive));
        let r = FormulaFacts {
            tags,
            factors,
            root_expr: Some(make_var_node(name)),
            roles: RoleSet::empty(),
            rounding_mode: RoundingMode::Exact,
            rounding_trace: Vec::new(),
            rounding_conflict: false,
        };
        assert(r@ =~= FormulaFactsView::of_var(name@, tags, strict_positive));
        r
    }

    pub fn join(&self, other: &Self) -> (r: Option<Self>)
        ensures
            opt_view(r) == self@.join_spec(other@),
    {
        let tags: TagSet = self.tags.intersection(&other.tags);
        let mut factors: Vec<FormulaFactor> = Vec::new();
        let mut i: usize = 0;
        while i < self.factors.len()
            invariant
                i <= self.factors@.len(),
                views(factors@) =~= join_factors(self@.factors, other@.factors, i as nat),
            decreases self.factors@.len() - i,
        {
            let ghost before = factors@;
            let mut j: usize = 0;
            while j < other.factors.len() && other.factors[j].name != self.factors[i].name
                invariant
                    i < self.factors@.len(),
                    j <= other.factors@.len(),
                    find_name(other@.factors, self@.factors[i as int].name, 0) == find_name(
                        other@.factors,
                        self@.factors[i as int].name,
                        j as nat,
                    ),
                decreases other.factors@.len() - j,
            {
                j = j + 1;
            }
            if j < other.factors.len() {
                match self.factors[i].join(&other.factors[j]) {
                    Some(joined) => {
                        factors.push(joined);
                        assert(views(factors@) =~= views(before).push(joined@));
                    },
                    None => {},
                }
            }
            i = i + 1;
        }
        if tags.is_empty() && factors.len() == 0 {
            return None;
        }
        let mut rounding_trace: Vec<String> = dup_all(&self.rounding_trace);
        extend_missing(&mut rounding_trace, &other.rounding_trace);
        let root_expr: Option<ExprNode> = if same_opt(&self.root_expr, &other.root_expr) {
            dup_opt(&self.root_expr)
        } else {
            None
        };
        let r = FormulaFacts {
            tags,
            factors,
            root_expr,
            roles: self.roles.intersection(&other.roles),
            rounding_mode: self.rounding_mode.merge(other.rounding_mode),
            rounding_trace,
            rounding_conflict: self.rounding_conflict || other.rounding_conflict
                || self.rounding_mode.conflicts(other.rounding_mode),
        };
        Some(r)
    }

    pub fn with_tag(self, tag: FormulaTag) -> (r: Self)
        ensures
            r@ == (FormulaFactsView { tags: self@.tags.insert_spec(tag), ..self@ }),
    {
        let mut r = self;
        r.tags = r.tags.with(tag);
        r
    }

    pub fn merge_tags(&mut self, tags: TagSet)
        ensures
            final(self)@ == (FormulaFactsView {
                tags: old(self)@.tags.union_spec(tags),
                ..old(self)@
            }),
    {
        self.tags = self.tags.union(&tags);
    }

    /// Notes one more role of the value.
    pub fn add_role(&mut self, role: SemanticRole)
        ensures
            final(self)@ == (FormulaFactsView {
                roles: old(self)@.roles.insert_spec(role),
                ..old(self)@
            }),
    {
        self.roles = self.roles.with(role);
    }

    pub fn all_factors_strict_positive(&self) -> (r: bool)
        ensures
            r == self@.all_factors_positive(),
    {
        let mut i: usize = 0;
        while i < self.factors.len()
            invariant
                i <= self.factors@.len(),
                forall|j: int| 0 <= j < i ==> (#[trigger] self@.factors[j]).strict_positive,
            decreases self.factors@.len() - i,
        {
            if !self.factors[i].strict_positive {
                assert(!self@.factors[i as int].strict_positive);
                return false;
            }
            i = i + 1;
        }
        self.factors.len() > 0
    }

    pub fn any_price_like_factor(&self) -> (r: bool)
        ensures
            r == exists|i: int|
                0 <= i < self@.factors.len() && (#[trigger] self@.factors[i]).tags.price_like,
    {
        let mut i: usize = 0;
        while i < self.factors.len()
            invariant
                i <= self.factors@.len(),
                forall|j: int| 0 <= j < i ==> !(#[trigger] self@.factors[j]).tags.price_like,
            decreases self.factors@.len() - i,
        {
            if self.factors[i].tags.contains(FormulaTag::PriceLike) {
                assert(self@.factors[i as int].tags.price_like);
                return true;
            }
            i = i + 1;
        }
        false
    }
}

/// The tags that the name of a quantity suggests.
#[verifier::opaque]
pub open spec fn tags_of_name(name: Seq<char>) -> TagSet {
    let lowered = lower(name);
    TagSet {
        price_like: contains_text(lowered, "sqrt_price"@) || lowered == "price"@ || contains_text(
            lowered,
            "_price"@,
        ),
        price_diff: contains_text(lowered, "price_diff"@) || (contains_text(lowered, "diff"@)
            && contains_text(lowered, "price"@)),
        liquidity_like: contains_text(lowered, "liquidity"@),
        denominator_like: contains_text(lowered, "denom"@) || contains_text(
            lowered,
            "denominator"@,
        ),
        ..TagSet::empty_spec()
    }
}

pub fn formula_tags_from_name(name: &str) -> (r: TagSet)
    ensures
        r == tags_of_name(name@),
{
    reveal(tags_of_name);
    let lowered_text: String = to_lower(name);
    let lowered: &str = lowered_text.as_str();
    let mut tags: TagSet = TagSet::empty();
    if contains(lowered, "sqrt_price") || lowered_text == "price".to_owned() || contains(
        lowered,
        "_price",
    ) {
        tags = tags.with(FormulaTag::PriceLike);
    }
    if contains(lowered, "price_diff") || (contains(lowered, "diff") && contains(
        lowered,
        "price",
    )) {
        tags = tags.with(FormulaTag::PriceDiff);
    }
    if contains(lowered, "liquidity") {
        tags = tags.with(FormulaTag::LiquidityLike);
    }
    if contains(lowered, "denom") || contains(lowered, "denominator") {
        tags = tags.with(FormulaTag::DenominatorLike);
    }
    tags
}

} // verus!
