//! The formula of a result from the formulas of its operands.

use crate::domain::formula::{
    formula_tags_from_name, make_var_node, tags_of_name, var_id, var_node, ExprNode, ExprNodeView,
    ExprOp, FormulaFactor, FormulaFactorView, FormulaFacts, FormulaFactsView, RoundingMode,
};
use crate::domain::hash::{stable_hash_of_three, stable_hash_of_two, stable_hash_spec};
use crate::domain::tags::{FormulaTag, RoleSet, SemanticRole, TagSet};
use crate::domain::value::{ValueState, ValueStateView};
use crate::model::{add_missing, extend_missing, opt_view, views, Dup};
use crate::text::{decimal, write_u128, write_u256};
use vstd::prelude::*;

verus! {

/// The tags of either side.
pub open spec fn union_tags(l: Option<FormulaFactsView>, r: Option<FormulaFactsView>) -> TagSet {
    tags_or_none(l).union_spec(tags_or_none(r))
}

pub open spec fn tags_or_none(facts: Option<FormulaFactsView>) -> TagSet {
    match facts {
        Some(facts) => facts.tags,
        None => TagSet::empty_spec(),
    }
}

pub open spec fn factors_or_none(facts: Option<FormulaFactsView>) -> Seq<FormulaFactorView> {
    match facts {
        Some(facts) => facts.factors,
        None => Seq::empty(),
    }
}

pub open spec fn trace_or_none(facts: Option<FormulaFactsView>) -> Seq<Seq<char>> {
    match facts {
        Some(facts) => facts.rounding_trace,
        None => Seq::empty(),
    }
}

/// Where a factor of this id first stands from `from` on.
pub open spec fn find_id(factors: Seq<FormulaFactorView>, id: u64, from: nat) -> Option<int>
    decreases factors.len() - from,
{
    if from >= factors.len() {
        None
    } else if factors[from as int].id == id {
        Some(from as int)
    } else {
        find_id(factors, id, from + 1)
    }
}

/// The factors with one more: merged with the one of its id, where there is one.
pub open spec fn with_factor(
    factors: Seq<FormulaFactorView>,
    factor: FormulaFactorView,
) -> Seq<FormulaFactorView> {
    match find_id(factors, factor.id, 0) {
        Some(i) => factors.update(i, factors[i].merge_spec(factor)),
        None => factors.push(factor),
    }
}

/// The factors with the first `n` of `extra`.
pub open spec fn with_factors(
    factors: Seq<FormulaFactorView>,
    extra: Seq<FormulaFactorView>,
    n: nat,
) -> Seq<FormulaFactorView>
    decreases n,
{
    if n == 0 || n > extra.len() {
        factors
    } else {
        with_factor(with_factors(factors, extra, (n - 1) as nat), extra[n - 1])
    }
}

/// The factors of both sides.
pub open spec fn merge_factors_spec(
    l: Option<FormulaFactsView>,
    r: Option<FormulaFactsView>,
) -> Seq<FormulaFactorView> {
    let lf = factors_or_none(l);
    let rf = factors_or_none(r);
    with_factors(with_factors(Seq::empty(), lf, lf.len()), rf, rf.len())
}

/// The rounding of a result whose own operation is exact.
pub open spec fn merge_modes_spec(
    l: Option<FormulaFactsView>,
    r: Option<FormulaFactsView>,
) -> RoundingMode {
    match (l, r) {
        (Some(l), Some(r)) => l.rounding_mode.merge_spec(r.rounding_mode),
        (Some(one), None) => one.rounding_mode,
        (None, Some(one)) => one.rounding_mode,
        (None, None) => RoundingMode::Exact,
    }
}

/// The rounding steps of both sides, each once, and one more.
pub open spec fn merge_traces_spec(
    l: Option<FormulaFactsView>,
    r: Option<FormulaFactsView>,
    tail: Seq<char>,
) -> Seq<Seq<char>> {
    let lt = trace_or_none(l);
    let rt = trace_or_none(r);
    add_missing(add_missing(Seq::empty(), lt, lt.len()), rt, rt.len()).push(tail)
}

/// The expression behind a value: its formula, or the number that it is known to be.
pub open spec fn root_spec(value: ValueStateView) -> Option<ExprNodeView> {
    if value.formula_facts is Some && value.formula_facts->0.root_expr is Some {
        value.formula_facts->0.root_expr
    } else {
        match value.exact_value_spec() {
            Some(n) => Some(
                ExprNodeView {
                    id: stable_hash_spec(seq!["const"@, decimal(n@)]),
                    op: ExprOp::Const,
                    children: Seq::empty(),
                    debug: decimal(n@),
                },
            ),
            None => None,
        }
    }
}

/// Whether the order of the operands does not matter.
pub open spec fn commutes(op: ExprOp) -> bool {
    op is Add || op is Mul
}

/// The expression of an operation on two values, where both have one.
pub open spec fn binary_node_spec(
    op: ExprOp,
    lhs: ValueStateView,
    rhs: ValueStateView,
    debug: Seq<char>,
) -> Option<ExprNodeView> {
    match (root_spec(lhs), root_spec(rhs)) {
        (Some(l), Some(r)) => {
            let swap = commutes(op) && r.id < l.id;
            let first = if swap {
                r.id
            } else {
                l.id
            };
            let second = if swap {
                l.id
            } else {
                r.id
            };
            Some(
                ExprNodeView {
                    id: stable_hash_spec(
                        seq![op.name_spec(), decimal(first as nat), decimal(second as nat)],
                    ),
                    op,
                    children: seq![first, second],
                    debug,
                },
            )
        },
        _ => None,
    }
}

/// The tags that an operation on two prices adds.
pub open spec fn price_tags(op: ExprOp) -> TagSet {
    match op {
        ExprOp::Sub => TagSet { price_diff: true, ..TagSet::empty_spec() },
        ExprOp::Mul => TagSet {
            price_product: true,
            denominator_like: true,
            ..TagSet::empty_spec()
        },
        _ => TagSet::empty_spec(),
    }
}

/// The roles that an operation gives to its result.
pub open spec fn roles_of(op: ExprOp) -> RoleSet {
    let none = RoleSet::empty_spec();
    match op {
        ExprOp::Sub => RoleSet { difference: true, ..none },
        ExprOp::Mul => RoleSet { mul_factor: true, ..none },
        ExprOp::Div => RoleSet { div_lhs: true, div_rhs: true, ..none },
        ExprOp::Mod => RoleSet { div_rhs: true, ..none },
        ExprOp::Shl | ExprOp::Shr => RoleSet { pow2_scale: true, ..none },
        _ => none,
    }
}

/// Whether an operation rounds down.
pub open spec fn rounds_down(op: ExprOp) -> bool {
    op is Div || op is Mod || op is Shr
}

/// What an operation leaves in the trace of rounding steps.
pub open spec fn trace_of(op: ExprOp) -> Seq<char> {
    match op {
        ExprOp::Add => "add"@,
        ExprOp::Sub => "sub"@,
        ExprOp::Mul => "mul"@,
        ExprOp::Div => "div/floor"@,
        ExprOp::Mod => "mod/floor"@,
        ExprOp::Shl => "shl/scale"@,
        ExprOp::Shr => "shr/floor"@,
        ExprOp::Const => "const"@,
        ExprOp::Var => "var"@,
    }
}

pub open spec fn is_price(facts: Option<FormulaFactsView>) -> bool {
    facts is Some && facts->0.tags.price_like
}

/// The formula of an operation on two values, where one of them has a formula.
pub open spec fn combine_spec(
    op: ExprOp,
    lhs: ValueStateView,
    rhs: ValueStateView,
    debug: Seq<char>,
) -> Option<FormulaFactsView> {
    let l = lhs.formula_facts;
    let r = rhs.formula_facts;
    if l is None && r is None {
        None
    } else {
        let tags = union_tags(l, r);
        Some(
            FormulaFactsView {
                tags: if is_price(l) && is_price(r) {
                    tags.union_spec(price_tags(op))
                } else {
                    tags
                },
                factors: merge_factors_spec(l, r),
                root_expr: binary_node_spec(op, lhs, rhs, debug),
                roles: roles_of(op),
                rounding_mode: if rounds_down(op) {
                    RoundingMode::RoundDown
                } else {
                    merge_modes_spec(l, r)
                },
                rounding_trace: merge_traces_spec(l, r, trace_of(op)),
                rounding_conflict: false,
            },
        )
    }
}

fn add_factor(factors: &mut Vec<FormulaFactor>, factor: &FormulaFactor)
    ensures
        views(final(factors)@) == with_factor(views(old(factors)@), factor@),
{
    let ghost start = views(factors@);
    let mut i: usize = 0;
    while i < factors.len() && factors[i].id != factor.id
        invariant
            i <= factors@.len(),
            factors@ == old(factors)@,
            start == views(factors@),
            find_id(start, factor@.id, 0) == find_id(start, factor@.id, i as nat),
        decreases factors@.len() - i,
    {
        i = i + 1;
    }
    if i < factors.len() {
        let merged = factors[i].merge(factor);
        factors.set(i, merged);
        assert(views(factors@) =~= start.update(i as int, merged@));
    } else {
        factors.push(factor.dup());
        assert(views(factors@) =~= start.push(factor@));
    }
}

fn add_factors(factors: &mut Vec<FormulaFactor>, extra: &Vec<FormulaFactor>)
    ensures
        views(final(factors)@) == with_factors(views(old(factors)@), views(extra@), extra@.len()),
{
    let ghost start = views(factors@);
    let mut i: usize = 0;
    while i < extra.len()
        invariant
            i <= extra@.len(),
            views(factors@) == with_factors(start, views(extra@), i as nat),
        decreases extra@.len() - i,
    {
        add_factor(factors, &extra[i]);
        i = i + 1;
    }
}

fn merge_factors(l: &Option<FormulaFacts>, r: &Option<FormulaFacts>) -> (factors: Vec<
    FormulaFactor,
>)
    ensures
        views(factors@) == merge_factors_spec(opt_view(*l), opt_view(*r)),
{
    let mut factors: Vec<FormulaFactor> = Vec::new();
    assert(views(factors@) =~= Seq::<FormulaFactorView>::empty());
    if let Some(l) = l {
        add_factors(&mut factors, &l.factors);
    }
    if let Some(r) = r {
        add_factors(&mut factors, &r.factors);
    }
    factors
}

fn merge_traces(l: &Option<FormulaFacts>, r: &Option<FormulaFacts>, tail: &str) -> (trace: Vec<
    String,
>)
    ensures
        views(trace@) == merge_traces_spec(opt_view(*l), opt_view(*r), tail@),
{
    let mut trace: Vec<String> = Vec::new();
    assert(views(trace@) =~= Seq::<Seq<char>>::empty());
    if let Some(l) = l {
        extend_missing(&mut trace, &l.rounding_trace);
    }
    if let Some(r) = r {
        extend_missing(&mut trace, &r.rounding_trace);
    }
    let ghost start = trace@;
    trace.push(tail.to_owned());
    assert(views(trace@) =~= views(start).push(tail@));
    trace
}

pub fn root_expr_from_value(value: &ValueState) -> (r: Option<ExprNode>)
    ensures
        opt_view(r) == root_spec(value@),
{
    if let Some(facts) = &value.formula_facts {
        if let Some(root) = &facts.root_expr {
            return Some(root.dup());
        }
    }
    match value.exact_value() {
        Some(n) => {
            let debug: String = write_u256(n);
            Some(
                ExprNode {
                    id: stable_hash_of_two("const", debug.as_str()),
                    op: ExprOp::Const,
                    children: Vec::new(),
                    debug,
                },
            )
        },
        None => None,
    }
}

pub fn make_binary_expr(op: ExprOp, lhs: &ValueState, rhs: &ValueState, debug: String) -> (r:
    Option<ExprNode>)
    ensures
        opt_view(r) == binary_node_spec(op, lhs@, rhs@, debug@),
{
    match (root_expr_from_value(lhs), root_expr_from_value(rhs)) {
        (Some(l), Some(r)) => {
            let swap: bool = (op == ExprOp::Add || op == ExprOp::Mul) && r.id < l.id;
            let first: u64 = if swap {
                r.id
            } else {
                l.id
            };
            let second: u64 = if swap {
                l.id
            } else {
                r.id
            };
            let mut children: Vec<u64> = Vec::new();
            children.push(first);
            children.push(second);
            assert(children@ =~= seq![first, second]);
            let id: u64 = stable_hash_of_three(
                op.name(),
                write_u128(first as u128).as_str(),
                write_u128(second as u128).as_str(),
            );
            Some(ExprNode { id, op, children, debug })
        },
        _ => None,
    }
}

pub fn combine_formula(op: ExprOp, lhs: &ValueState, rhs: &ValueState, debug: String) -> (r: Option<
    FormulaFacts,
>)
    ensures
        opt_view(r) == combine_spec(op, lhs@, rhs@, debug@),
{
    let l: &Option<FormulaFacts> = &lhs.formula_facts;
    let r: &Option<FormulaFacts> = &rhs.formula_facts;
    if l.is_none() && r.is_none() {
        return None;
    }
    let l_tags: TagSet = match l {
        Some(facts) => facts.tags,
        None => TagSet::empty(),
    };
    let r_tags: TagSet = match r {
        Some(facts) => facts.tags,
        None => TagSet::empty(),
    };
    let mut tags: TagSet = l_tags.union(&r_tags);
    if l_tags.contains(FormulaTag::PriceLike) && r_tags.contains(FormulaTag::PriceLike) {
        if op == ExprOp::Sub {
            tags = tags.with(FormulaTag::PriceDiff);
        }
        if op == ExprOp::Mul {
            tags = tags.with(FormulaTag::PriceProduct).with(FormulaTag::DenominatorLike);
        }
    }
    let none: RoleSet = RoleSet::empty();
    let (roles, tail) = match op {
        ExprOp::Add => (none, "add"),
        ExprOp::Sub => (none.with(SemanticRole::Difference), "sub"),
        ExprOp::Mul => (none.with(SemanticRole::MulFactor), "mul"),
        ExprOp::Div => (
            none.with(SemanticRole::DivLhs).with(SemanticRole::DivRhs),
            "div/floor",
        ),
        ExprOp::Mod => (none.with(SemanticRole::DivRhs), "mod/floor"),
        ExprOp::Shl => (none.with(SemanticRole::Pow2Scale), "shl/scale"),
        ExprOp::Shr => (none.with(SemanticRole::Pow2Scale), "shr/floor"),
        ExprOp::Const => (none, "const"),
        ExprOp::Var => (none, "var"),
    };
    let rounding_mode: RoundingMode = if op == ExprOp::Div || op == ExprOp::Mod || op
        == ExprOp::Shr {
        RoundingMode::RoundDown
    } else {
        match (l, r) {
            (Some(l), Some(r)) => l.rounding_mode.merge(r.rounding_mode),
            (Some(one), None) => one.rounding_mode,
            (None, Some(one)) => one.rounding_mode,
            (None, None) => RoundingMode::Exact,
        }
    };
    Some(
        FormulaFacts {
            tags,
            factors: merge_factors(l, r),
            root_expr: make_binary_expr(op, lhs, rhs, debug),
            roles,
            rounding_mode,
            rounding_trace: merge_traces(l, r, tail),
            rounding_conflict: false,
        },
    )
}

/// The factors of a value that is put into a variable.
pub open spec fn annotated_factors(
    factors: Seq<FormulaFactorView>,
    name: Seq<char>,
    tags: TagSet,
    positive: bool,
) -> Seq<FormulaFactorView> {
    match find_id(factors, var_id(name), 0) {
        Some(i) => factors.update(
            i,
            FormulaFactorView {
                strict_positive: positive,
                tags: factors[i].tags.union_spec(tags),
                ..factors[i]
            },
        ),
        None => if factors.len() == 0 {
            seq![FormulaFactorView::of_name(name, tags, positive)]
        } else {
            factors
        },
    }
}

/// A value that is put into a variable: the name of the variable adds to its formula.
pub open spec fn annotate_spec(value: ValueStateView, name: Seq<char>) -> ValueStateView {
    let positive = value.interval.positive_spec();
    let tags = tags_of_name(name);
    let facts = match value.formula_facts {
        Some(facts) => FormulaFactsView {
            tags: facts.tags.union_spec(tags),
            factors: annotated_factors(facts.factors, name, tags, positive),
            root_expr: if facts.root_expr is Some {
                facts.root_expr
            } else {
                Some(var_node(name))
            },
            ..facts
        },
        None => FormulaFactsView::of_var(name, tags, positive),
    };
    ValueStateView { formula_facts: Some(facts), ..value }
}

fn annotate_factors(factors: &mut Vec<FormulaFactor>, name: &String, tags: TagSet, positive: bool)
    ensures
        views(final(factors)@) == annotated_factors(views(old(factors)@), name@, tags, positive),
{
    let ghost start = views(factors@);
    let id: u64 = stable_hash_of_two("var", name.as_str());
    let mut i: usize = 0;
    while i < factors.len() && factors[i].id != id
        invariant
            i <= factors@.len(),
            start == views(factors@),
            find_id(start, id, 0) == find_id(start, id, i as nat),
        decreases factors@.len() - i,
    {
        i = i + 1;
    }
    if i < factors.len() {
        let mut factor: FormulaFactor = factors[i].dup();
        factor.strict_positive = positive;
        factor.tags = factor.tags.union(&tags);
        factors.set(i, factor);
        assert(views(factors@) =~= start.update(i as int, factor@));
    } else if factors.len() == 0 {
        let factor = FormulaFactor::new(name.clone(), tags, positive);
        factors.push(factor);
        assert(views(factors@) =~= seq![factor@]);
    }
}

pub fn annotate_value_with_name(value: &mut ValueState, name: &String)
    ensures
        final(value)@ == annotate_spec(old(value)@, name@),
{
    let positive: bool = value.interval.positive();
    let tags: TagSet = formula_tags_from_name(name.as_str());
    let facts: FormulaFacts = match &value.formula_facts {
        Some(facts) => {
            let mut facts: FormulaFacts = facts.dup();
            facts.merge_tags(tags);
            annotate_factors(&mut facts.factors, name, tags, positive);
            if facts.root_expr.is_none() {
                facts.root_expr = Some(make_var_node(name.as_str()));
            }
            facts
        },
        None => FormulaFacts::of_var(name.as_str(), tags, positive),
    };
    value.formula_facts = Some(facts);
}

} // verus!
