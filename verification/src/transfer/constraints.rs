//! Conditions: what a branch tells about the variables it tests.

use crate::ast::{BinOp, Exp, UnannotatedExp, Var};
use crate::domain::formula::{FormulaFactor, FormulaFactorView, FormulaFacts, FormulaFactsView};
use crate::domain::interval::{intersect_is_exact, Interval};
use crate::domain::risk::{ConstraintOp, PathFact, PathFactView};
use crate::domain::state::{AbstractState, AbstractStateView};
use crate::domain::value::{ValueState, ValueStateView};
use crate::domain::widths::uint_max;
use crate::model::{holds, opt_view, views, Dup};
use crate::text::{decimal, write_u256};
use crate::transfer::context::{Ctx, FunctionAnalyzer};
use crate::transfer::describe::{extract_var, extract_var_spec};
use crate::u256::{full, lemma_u256_of, lemma_u256_view, U256};
use vstd::prelude::*;

verus! {

/// A comparison of a variable with a number.
#[derive(Clone, Debug, PartialEq, Eq)]
pub struct Constraint {
    pub var: Var,
    pub op: ConstraintOp,
    pub bound: U256,
    pub text: String,
}

#[verifier::ext_equal]
pub struct ConstraintView {
    pub var: Var,
    pub op: ConstraintOp,
    pub bound: U256,
    pub text: Seq<char>,
}

impl View for Constraint {
    type V = ConstraintView;

    open spec fn view(&self) -> ConstraintView {
        ConstraintView { var: self.var, op: self.op, bound: self.bound, text: self.text@ }
    }
}

impl Dup for Constraint {
    fn dup(&self) -> (r: Self) {
        Constraint { var: self.var, op: self.op, bound: self.bound, text: self.text.clone() }
    }
}

/// The comparison of a variable with a number, as messages show it.
pub open spec fn constraint_spec(c: Ctx, var: Var, op: ConstraintOp, bound: U256) -> ConstraintView {
    ConstraintView {
        var,
        op,
        bound,
        text: c.function.var_name_spec(var) + " "@ + op.text_spec() + " "@ + decimal(bound@),
    }
}

/// One more, where there is such a number.
pub open spec fn next_spec(x: U256) -> Option<U256> {
    x.add_spec(U256::one_spec())
}

/// One less, where there is such a number.
pub open spec fn previous_spec(x: U256) -> Option<U256> {
    x.sub_spec(U256::one_spec())
}

/// The numbers that meet a comparison, where they form a range.
pub open spec fn constraint_interval_spec(op: ConstraintOp, bound: U256) -> Option<Interval> {
    let max = U256::max_value_spec();
    match op {
        ConstraintOp::Lt => Some(
            match previous_spec(bound) {
                Some(upper) => Interval::range(U256::zero_spec(), upper),
                None => Interval::bottom_spec(),
            },
        ),
        ConstraintOp::Le => Some(Interval::range(U256::zero_spec(), bound)),
        ConstraintOp::Gt => Some(
            match next_spec(bound) {
                Some(lower) => Interval::range(lower, max),
                None => Interval::bottom_spec(),
            },
        ),
        ConstraintOp::Ge => Some(Interval::range(bound, max)),
        ConstraintOp::Eq => Some(Interval::range(bound, bound)),
        ConstraintOp::Ne => None,
    }
}

pub fn constraint_interval(op: ConstraintOp, bound: U256) -> (r: Option<Interval>)
    ensures
        r == constraint_interval_spec(op, bound),
{
    let max: U256 = uint_max(256);
    let zero: U256 = U256::zero();
    match op {
        ConstraintOp::Lt => match bound.checked_sub(U256::one()) {
            Some(upper) => Some(Interval::between(zero, upper)),
            None => Some(Interval::bottom()),
        },
        ConstraintOp::Le => Some(Interval::between(zero, bound)),
        ConstraintOp::Gt => match bound.checked_add(U256::one()) {
            Some(lower) => Some(Interval::between(lower, max)),
            None => Some(Interval::bottom()),
        },
        ConstraintOp::Ge => Some(Interval::between(bound, max)),
        ConstraintOp::Eq => Some(Interval::between(bound, bound)),
        ConstraintOp::Ne => None,
    }
}

/// A range with both ends known and one that is open below, or open above: where they overlap,
/// together they are open on that side.
pub open spec fn merge_one_sided_spec(bounded: Interval, one_sided: Interval) -> Option<
    (ConstraintOp, U256),
> {
    match (bounded.lower, bounded.upper) {
        (Some(lower), Some(upper)) => match (one_sided.lower, one_sided.upper) {
            (None, Some(other_upper)) => if lower@ <= other_upper@ {
                Some((ConstraintOp::Le, upper.max_spec(other_upper)))
            } else {
                None
            },
            (Some(other_lower), None) => if upper@ >= other_lower@ {
                Some((ConstraintOp::Ge, lower.min_spec(other_lower)))
            } else {
                None
            },
            _ => None,
        },
        _ => None,
    }
}

pub fn merge_bounded_with_one_sided(bounded: &Interval, one_sided: &Interval) -> (r: Option<
    (ConstraintOp, U256),
>)
    ensures
        r == merge_one_sided_spec(*bounded, *one_sided),
{
    if let (Some(lower), Some(upper)) = (bounded.lower, bounded.upper) {
        if one_sided.lower.is_none() {
            if let Some(other_upper) = one_sided.upper {
                if lower.le(other_upper) {
                    return Some((ConstraintOp::Le, upper.max(other_upper)));
                }
            }
        }
        if one_sided.upper.is_none() {
            if let Some(other_lower) = one_sided.lower {
                if other_lower.le(upper) {
                    return Some((ConstraintOp::Ge, lower.min(other_lower)));
                }
            }
        }
    }
    None
}

/// Two overlapping ranges, where together they reach one end of all numbers.
pub open spec fn merge_overlapping_spec(left: Interval, right: Interval) -> Option<
    (ConstraintOp, U256),
> {
    match (left.lower, left.upper, right.lower, right.upper) {
        (Some(ll), Some(lu), Some(rl), Some(ru)) => {
            let lower = ll.min_spec(rl);
            let upper = lu.max_spec(ru);
            if lu@ < rl@ || ru@ < ll@ {
                None
            } else if lower == U256::zero_spec() {
                Some((ConstraintOp::Le, upper))
            } else if upper == U256::max_value_spec() {
                Some((ConstraintOp::Ge, lower))
            } else {
                None
            }
        },
        _ => None,
    }
}

pub fn merge_overlapping_bounded(left: &Interval, right: &Interval) -> (r: Option<
    (ConstraintOp, U256),
>)
    ensures
        r == merge_overlapping_spec(*left, *right),
{
    let (Some(left_lower), Some(left_upper), Some(right_lower), Some(right_upper)) = (
        left.lower,
        left.upper,
        right.lower,
        right.upper,
    ) else {
        return None;
    };
    if left_upper.lt(right_lower) || right_upper.lt(left_lower) {
        return None;
    }
    let merged_lower: U256 = left_lower.min(right_lower);
    let merged_upper: U256 = left_upper.max(right_upper);
    if merged_lower == U256::zero() {
        return Some((ConstraintOp::Le, merged_upper));
    }
    if merged_upper == uint_max(256) {
        return Some((ConstraintOp::Ge, merged_lower));
    }
    None
}

/// One comparison that holds wherever one of two ranges does.
pub open spec fn merge_intervals_spec(left: Interval, right: Interval) -> Option<
    (ConstraintOp, U256),
> {
    if left.lower is None && right.lower is None {
        match (left.upper, right.upper) {
            (Some(l), Some(r)) => Some((ConstraintOp::Le, l.max_spec(r))),
            _ => None,
        }
    } else if left.upper is None && right.upper is None {
        match (left.lower, right.lower) {
            (Some(l), Some(r)) => Some((ConstraintOp::Ge, l.min_spec(r))),
            _ => None,
        }
    } else if merge_one_sided_spec(left, right) is Some {
        merge_one_sided_spec(left, right)
    } else if merge_one_sided_spec(right, left) is Some {
        merge_one_sided_spec(right, left)
    } else {
        merge_overlapping_spec(left, right)
    }
}

pub fn merge_intervals(left: &Interval, right: &Interval) -> (r: Option<(ConstraintOp, U256)>)
    ensures
        r == merge_intervals_spec(*left, *right),
{
    if left.lower.is_none() && right.lower.is_none() {
        return match (left.upper, right.upper) {
            (Some(l), Some(r)) => Some((ConstraintOp::Le, l.max(r))),
            _ => None,
        };
    }
    if left.upper.is_none() && right.upper.is_none() {
        return match (left.lower, right.lower) {
            (Some(l), Some(r)) => Some((ConstraintOp::Ge, l.min(r))),
            _ => None,
        };
    }
    if let Some(merged) = merge_bounded_with_one_sided(left, right) {
        return Some(merged);
    }
    if let Some(merged) = merge_bounded_with_one_sided(right, left) {
        return Some(merged);
    }
    merge_overlapping_bounded(left, right)
}

/// One comparison that holds wherever one of two does, where each side is a single comparison of
/// the same variable.
pub open spec fn merge_disjunctive_spec(
    c: Ctx,
    left: Seq<ConstraintView>,
    right: Seq<ConstraintView>,
) -> Option<Seq<ConstraintView>> {
    if left.len() != 1 || right.len() != 1 || left[0].var != right[0].var {
        None
    } else {
        match (
            constraint_interval_spec(left[0].op, left[0].bound),
            constraint_interval_spec(right[0].op, right[0].bound),
        ) {
            (Some(l), Some(r)) => match merge_intervals_spec(l, r) {
                Some((op, bound)) => Some(seq![constraint_spec(c, left[0].var, op, bound)]),
                None => None,
            },
            _ => None,
        }
    }
}

/// The comparison that an operator of the language stands for.
pub open spec fn constraint_op_spec(op: BinOp) -> Option<ConstraintOp> {
    match op {
        BinOp::Lt => Some(ConstraintOp::Lt),
        BinOp::Le => Some(ConstraintOp::Le),
        BinOp::Gt => Some(ConstraintOp::Gt),
        BinOp::Ge => Some(ConstraintOp::Ge),
        BinOp::Eq => Some(ConstraintOp::Eq),
        BinOp::Neq => Some(ConstraintOp::Ne),
        _ => None,
    }
}

impl ConstraintOp {
    /// The comparison with its sides exchanged.
    pub open spec fn flipped_spec(self) -> ConstraintOp {
        match self {
            ConstraintOp::Lt => ConstraintOp::Gt,
            ConstraintOp::Le => ConstraintOp::Ge,
            ConstraintOp::Gt => ConstraintOp::Lt,
            ConstraintOp::Ge => ConstraintOp::Le,
            ConstraintOp::Eq => ConstraintOp::Eq,
            ConstraintOp::Ne => ConstraintOp::Ne,
        }
    }

    /// The comparison that holds where this one does not.
    pub open spec fn negated_spec(self) -> ConstraintOp {
        match self {
            ConstraintOp::Lt => ConstraintOp::Ge,
            ConstraintOp::Le => ConstraintOp::Gt,
            ConstraintOp::Gt => ConstraintOp::Le,
            ConstraintOp::Ge => ConstraintOp::Lt,
            ConstraintOp::Eq => ConstraintOp::Ne,
            ConstraintOp::Ne => ConstraintOp::Eq,
        }
    }

    pub fn flipped(self) -> (r: ConstraintOp)
        ensures
            r == self.flipped_spec(),
    {
        match self {
            ConstraintOp::Lt => ConstraintOp::Gt,
            ConstraintOp::Le => ConstraintOp::Ge,
            ConstraintOp::Gt => ConstraintOp::Lt,
            ConstraintOp::Ge => ConstraintOp::Le,
            ConstraintOp::Eq => ConstraintOp::Eq,
            ConstraintOp::Ne => ConstraintOp::Ne,
        }
    }

    pub fn negated(self) -> (r: ConstraintOp)
        ensures
            r == self.negated_spec(),
    {
        match self {
            ConstraintOp::Lt => ConstraintOp::Ge,
            ConstraintOp::Le => ConstraintOp::Gt,
            ConstraintOp::Gt => ConstraintOp::Le,
            ConstraintOp::Ge => ConstraintOp::Lt,
            ConstraintOp::Eq => ConstraintOp::Ne,
            ConstraintOp::Ne => ConstraintOp::Eq,
        }
    }
}

/// What a comparison of two expressions tells, where one is a variable and the other a known
/// number.
pub open spec fn comparison_constraint_spec(
    c: Ctx,
    lhs: Exp,
    op: BinOp,
    rhs: Exp,
    truthy: bool,
    st: AbstractStateView,
) -> Option<ConstraintView> {
    let sides = match extract_var_spec(lhs) {
        Some(var) => match c.const_value_spec(rhs, st) {
            Some(bound) => Some((var, bound, false)),
            None => None,
        },
        None => match extract_var_spec(rhs) {
            Some(var) => match c.const_value_spec(lhs, st) {
                Some(bound) => Some((var, bound, true)),
                None => None,
            },
            None => None,
        },
    };
    match (sides, constraint_op_spec(op)) {
        (Some((var, bound, flip)), Some(op)) => {
            let op = if flip {
                op.flipped_spec()
            } else {
                op
            };
            let op = if truthy {
                op
            } else {
                op.negated_spec()
            };
            Some(constraint_spec(c, var, op, bound))
        },
        _ => None,
    }
}

/// A list, or the empty one where there is none.
pub open spec fn or_empty(list: Option<Seq<ConstraintView>>) -> Seq<ConstraintView> {
    match list {
        Some(list) => list,
        None => Seq::empty(),
    }
}

/// What a condition tells when it turns out true, or false.
pub open spec fn collect_constraints_spec(
    c: Ctx,
    e: Exp,
    truthy: bool,
    st: AbstractStateView,
) -> Option<Seq<ConstraintView>>
    decreases e,
{
    match e.value {
        UnannotatedExp::Not(inner) => collect_constraints_spec(c, *inner, !truthy, st),
        UnannotatedExp::BinopExp(lhs, op, rhs) => match op {
            BinOp::And | BinOp::Or => {
                let l = collect_constraints_spec(c, *lhs, truthy, st);
                let r = collect_constraints_spec(c, *rhs, truthy, st);
                if (op is And) == truthy {
                    Some(or_empty(l) + or_empty(r))
                } else {
                    match (l, r) {
                        (Some(l), Some(r)) => merge_disjunctive_spec(c, l, r),
                        _ => None,
                    }
                }
            },
            BinOp::Lt | BinOp::Le | BinOp::Gt | BinOp::Ge | BinOp::Eq | BinOp::Neq => {
                match comparison_constraint_spec(c, *lhs, op, *rhs, truthy, st) {
                    Some(constraint) => Some(seq![constraint]),
                    None => None,
                }
            },
            _ => None,
        },
        _ => None,
    }
}

/// The numbers of a range that meet a comparison, as a range.
pub open spec fn constrained_interval_spec(
    interval: Interval,
    op: ConstraintOp,
    bound: U256,
) -> Interval {
    match op {
        ConstraintOp::Lt => match previous_spec(bound) {
            Some(upper) => interval.intersect_spec(None, Some(upper)),
            None => Interval::bottom_spec(),
        },
        ConstraintOp::Le => interval.intersect_spec(None, Some(bound)),
        ConstraintOp::Gt => match next_spec(bound) {
            Some(lower) => interval.intersect_spec(Some(lower), None),
            None => Interval::bottom_spec(),
        },
        ConstraintOp::Ge => interval.intersect_spec(Some(bound), None),
        ConstraintOp::Eq => interval.intersect_spec(Some(bound), Some(bound)),
        ConstraintOp::Ne => if interval.bottom || interval.is_singleton_spec() == Some(bound) {
            Interval::bottom_spec()
        } else if bound == U256::zero_spec() {
            interval.intersect_spec(Some(U256::one_spec()), None)
        } else if interval.lower == Some(bound) {
            match next_spec(bound) {
                Some(lower) => interval.intersect_spec(Some(lower), None),
                None => Interval::bottom_spec(),
            }
        } else if interval.upper == Some(bound) {
            match previous_spec(bound) {
                Some(upper) => interval.intersect_spec(None, Some(upper)),
                None => Interval::bottom_spec(),
            }
        } else {
            interval
        },
    }
}

pub fn constrained_interval(interval: &Interval, op: ConstraintOp, bound: U256) -> (r: Interval)
    ensures
        r == constrained_interval_spec(*interval, op, bound),
{
    match op {
        ConstraintOp::Lt => match bound.checked_sub(U256::one()) {
            Some(upper) => interval.intersect(None, Some(upper)),
            None => Interval::bottom(),
        },
        ConstraintOp::Le => interval.intersect(None, Some(bound)),
        ConstraintOp::Gt => match bound.checked_add(U256::one()) {
            Some(lower) => interval.intersect(Some(lower), None),
            None => Interval::bottom(),
        },
        ConstraintOp::Ge => interval.intersect(Some(bound), None),
        ConstraintOp::Eq => interval.intersect(Some(bound), Some(bound)),
        ConstraintOp::Ne => {
            if interval.bottom || interval.is_singleton() == Some(bound) {
                Interval::bottom()
            } else if bound == U256::zero() {
                // No unsigned number is below zero: one that is not zero is at least one.
                interval.intersect(Some(U256::one()), None)
            } else if interval.lower == Some(bound) {
                match bound.checked_add(U256::one()) {
                    Some(lower) => interval.intersect(Some(lower), None),
                    None => Interval::bottom(),
                }
            } else if interval.upper == Some(bound) {
                match bound.checked_sub(U256::one()) {
                    Some(upper) => interval.intersect(None, Some(upper)),
                    None => Interval::bottom(),
                }
            } else {
                *interval
            }
        },
    }
}

/// The factors, with what is now known of those of this name.
pub open spec fn with_positivity(
    factors: Seq<FormulaFactorView>,
    name: Seq<char>,
    positive: bool,
) -> Seq<FormulaFactorView> {
    Seq::new(
        factors.len(),
        |i: int|
            if factors[i].name == name {
                FormulaFactorView { strict_positive: positive, ..factors[i] }
            } else {
                factors[i]
            },
    )
}

fn set_positivity(factors: &mut Vec<FormulaFactor>, name: &String, positive: bool)
    ensures
        views(final(factors)@) == with_positivity(views(old(factors)@), name@, positive),
{
    let ghost all = views(factors@);
    let ghost wanted = with_positivity(all, name@, positive);
    let mut i: usize = 0;
    while i < factors.len()
        invariant
            i <= factors@.len(),
            all.len() == factors@.len(),
            wanted == with_positivity(all, name@, positive),
            views(factors@).take(i as int) =~= wanted.take(i as int),
            views(factors@).skip(i as int) =~= all.skip(i as int),
        decreases factors@.len() - i,
    {
        let ghost start = views(factors@);
        assert(start[i as int] == all.skip(i as int)[0]);
        assert(start[i as int] == all[i as int]);
        if factors[i].name == *name {
            let mut factor = factors[i].dup();
            factor.strict_positive = positive;
            factors.set(i, factor);
            assert(views(factors@) =~= start.update(i as int, factor@));
        }
        assert(views(factors@)[i as int] == wanted[i as int]);
        assert(views(factors@).skip(i + 1) =~= start.skip(i as int).skip(1));
        assert(views(factors@).take(i as int) =~= start.take(i as int));
        i = i + 1;
    }
    assert(views(factors@) =~= views(factors@).take(i as int));
    assert(wanted =~= wanted.take(i as int));
}

/// The state on a path where a comparison holds.
pub open spec fn apply_constraint_spec(
    c: Ctx,
    k: ConstraintView,
    st: AbstractStateView,
) -> AbstractStateView {
    let value = c.lookup(st, k.var);
    let interval = constrained_interval_spec(value.interval, k.op, k.bound);
    if interval.bottom {
        AbstractStateView { unreachable: true, ..st }
    } else {
        let facts = match value.formula_facts {
            Some(facts) => Some(
                FormulaFactsView {
                    factors: with_positivity(
                        facts.factors,
                        c.function.var_name_spec(k.var),
                        interval.positive_spec(),
                    ),
                    ..facts
                },
            ),
            None => None,
        };
        let fact = PathFactView {
            var: Some(k.var),
            op: k.op,
            bound: Some(k.bound),
            text: k.text,
        };
        AbstractStateView {
            locals: st.locals.insert(
                k.var.index,
                ValueStateView { interval, formula_facts: facts, ..value },
            ),
            path_facts: if st.path_facts.contains(fact) {
                st.path_facts
            } else {
                st.path_facts.push(fact)
            },
            unreachable: st.unreachable,
        }
    }
}

/// The state after the first `n` comparisons, as far as it stays reachable.
pub open spec fn apply_all_spec(
    c: Ctx,
    ks: Seq<ConstraintView>,
    n: nat,
    st: AbstractStateView,
) -> AbstractStateView
    decreases n,
{
    if n == 0 || n > ks.len() {
        st
    } else {
        let before = apply_all_spec(c, ks, (n - 1) as nat, st);
        if before.unreachable {
            before
        } else {
            apply_constraint_spec(c, ks[n - 1], before)
        }
    }
}

/// The state on the path where a condition turned out true, or false.
pub open spec fn apply_condition_spec(
    c: Ctx,
    e: Exp,
    truthy: bool,
    st: AbstractStateView,
) -> AbstractStateView {
    if st.unreachable {
        st
    } else {
        match collect_constraints_spec(c, e, truthy, st) {
            Some(ks) => apply_all_spec(c, ks, ks.len(), st),
            None => st,
        }
    }
}

impl<'a> FunctionAnalyzer<'a> {
    fn constraint(&self, var: Var, op: ConstraintOp, bound: U256) -> (r: Constraint)
        ensures
            r@ == constraint_spec(self@, var, op, bound),
    {
        let mut text: String = self.function.var_name(var);
        text.append(" ");
        text.append(op.text());
        text.append(" ");
        text.append(write_u256(bound).as_str());
        Constraint { var, op, bound, text }
    }

    pub fn merge_disjunctive_constraints(
        &self,
        left: &Vec<Constraint>,
        right: &Vec<Constraint>,
    ) -> (r: Option<Vec<Constraint>>)
        ensures
            match r {
                Some(ks) => merge_disjunctive_spec(self@, views(left@), views(right@)) == Some(
                    views(ks@),
                ),
                None => merge_disjunctive_spec(self@, views(left@), views(right@)) is None,
            },
    {
        if left.len() != 1 || right.len() != 1 || left[0].var != right[0].var {
            return None;
        }
        match (
            constraint_interval(left[0].op, left[0].bound),
            constraint_interval(right[0].op, right[0].bound),
        ) {
            (Some(l), Some(r)) => match merge_intervals(&l, &r) {
                Some((op, bound)) => {
                    let mut ks: Vec<Constraint> = Vec::new();
                    ks.push(self.constraint(left[0].var, op, bound));
                    assert(views(ks@) =~= seq![constraint_spec(self@, left@[0].var, op, bound)]);
                    Some(ks)
                },
                None => None,
            },
            _ => None,
        }
    }

    pub fn comparison_constraint(
        &self,
        lhs: &Exp,
        op: BinOp,
        rhs: &Exp,
        truthy: bool,
        state: &AbstractState,
    ) -> (r: Option<Constraint>)
        ensures
            opt_view(r) == comparison_constraint_spec(self@, *lhs, op, *rhs, truthy, state@),
    {
        let (var, bound, flip) = match extract_var(lhs) {
            Some(var) => match self.const_value(rhs, state) {
                Some(bound) => (var, bound, false),
                None => {
                    return None;
                },
            },
            None => match extract_var(rhs) {
                Some(var) => match self.const_value(lhs, state) {
                    Some(bound) => (var, bound, true),
                    None => {
                        return None;
                    },
                },
                None => {
                    return None;
                },
            },
        };
        let mut op: ConstraintOp = match op {
            BinOp::Lt => ConstraintOp::Lt,
            BinOp::Le => ConstraintOp::Le,
            BinOp::Gt => ConstraintOp::Gt,
            BinOp::Ge => ConstraintOp::Ge,
            BinOp::Eq => ConstraintOp::Eq,
            BinOp::Neq => ConstraintOp::Ne,
            _ => {
                return None;
            },
        };
        if flip {
            op = op.flipped();
        }
        if !truthy {
            op = op.negated();
        }
        Some(self.constraint(var, op, bound))
    }

    #[verifier::rlimit(30)]
    pub fn collect_constraints(&self, e: &Exp, truthy: bool, state: &AbstractState) -> (r: Option<
        Vec<Constraint>,
    >)
        ensures
            match r {
                Some(ks) => collect_constraints_spec(self@, *e, truthy, state@) == Some(views(ks@)),
                None => collect_constraints_spec(self@, *e, truthy, state@) is None,
            },
        decreases *e,
    {
        match &e.value {
            UnannotatedExp::Not(inner) => self.collect_constraints(inner, !truthy, state),
            UnannotatedExp::BinopExp(lhs, op, rhs) => match op {
                BinOp::And | BinOp::Or => {
                    let left = self.collect_constraints(lhs, truthy, state);
                    let right = self.collect_constraints(rhs, truthy, state);
                    if (*op == BinOp::And) == truthy {
                        let mut constraints: Vec<Constraint> = match left {
                            Some(constraints) => constraints,
                            None => {
                                let none: Vec<Constraint> = Vec::new();
                                assert(views(none@) =~= Seq::<ConstraintView>::empty());
                                none
                            },
                        };
                        let ghost first = constraints@;
                        match right {
                            Some(more) => {
                                let mut more: Vec<Constraint> = more;
                                let ghost second = more@;
                                constraints.append(&mut more);
                                assert(views(constraints@) =~= views(first) + views(second));
                            },
                            None => {
                                assert(views(first) + Seq::<ConstraintView>::empty() =~= views(
                                    first,
                                ));
                            },
                        }
                        Some(constraints)
                    } else {
                        match (left, right) {
                            (Some(left), Some(right)) => self.merge_disjunctive_constraints(
                                &left,
                                &right,
                            ),
                            _ => None,
                        }
                    }
                },
                BinOp::Lt | BinOp::Le | BinOp::Gt | BinOp::Ge | BinOp::Eq | BinOp::Neq => {
                    match self.comparison_constraint(lhs, *op, rhs, truthy, state) {
                        Some(constraint) => {
                            let mut ks: Vec<Constraint> = Vec::new();
                            ks.push(constraint);
                            assert(views(ks@) =~= seq![constraint@]);
                            Some(ks)
                        },
                        None => None,
                    }
                },
                _ => None,
            },
            _ => None,
        }
    }

    pub fn apply_constraint(&self, constraint: &Constraint, state: &mut AbstractState)
        ensures
            final(state)@ == apply_constraint_spec(self@, constraint@, old(state)@),
    {
        let var: Var = constraint.var;
        let mut value: ValueState = self.lookup_var(state, var);
        value.interval = constrained_interval(&value.interval, constraint.op, constraint.bound);
        if value.interval.bottom {
            state.unreachable = true;
            return;
        }
        let strict_positive: bool = value.interval.positive();
        let facts: Option<FormulaFacts> = match &value.formula_facts {
            Some(facts) => {
                let name: String = self.function.var_name(var);
                let mut facts: FormulaFacts = facts.dup();
                set_positivity(&mut facts.factors, &name, strict_positive);
                Some(facts)
            },
            None => None,
        };
        value.formula_facts = facts;
        state.locals.insert(var.index, value);
        let fact = PathFact {
            var: Some(var),
            op: constraint.op,
            bound: Some(constraint.bound),
            text: constraint.text.clone(),
        };
        if !holds(&state.path_facts, &fact) {
            let ghost start = state.path_facts@;
            state.path_facts.push(fact);
            assert(views(state.path_facts@) =~= views(start).push(fact@));
        }
    }

    pub fn apply_condition(&self, e: &Exp, truthy: bool, state: &mut AbstractState)
        ensures
            final(state)@ == apply_condition_spec(self@, *e, truthy, old(state)@),
    {
        if state.unreachable {
            return;
        }
        let ghost start = state@;
        if let Some(constraints) = self.collect_constraints(e, truthy, state) {
            let ghost ks = views(constraints@);
            let mut i: usize = 0;
            while i < constraints.len()
                invariant
                    i <= constraints@.len(),
                    ks == views(constraints@),
                    state@ == apply_all_spec(self@, ks, i as nat, start),
                decreases constraints@.len() - i,
            {
                if !state.unreachable {
                    self.apply_constraint(&constraints[i], state);
                }
                i = i + 1;
            }
        }
    }
}

/// A comparison with its sides exchanged says the same, and the negated one the opposite.
pub proof fn flipping_and_negating_are_right(op: ConstraintOp, n: nat, bound: nat)
    ensures
        op.flipped_spec().holds(bound, n) == op.holds(n, bound),
        op.negated_spec().holds(n, bound) == !op.holds(n, bound),
{
}

pub proof fn lemma_neighbours(x: U256)
    ensures
        match next_spec(x) {
            Some(y) => y@ == x@ + 1,
            None => x@ + 1 == full(),
        },
        match previous_spec(x) {
            Some(y) => y@ == x@ - 1,
            None => x@ == 0,
        },
        x@ < full(),
{
    lemma_u256_view(x);
    if x@ + 1 < full() {
        lemma_u256_of(x@ + 1);
    }
    if x@ >= 1 {
        lemma_u256_of((x@ - 1) as nat);
    }
    assert(U256::one_spec()@ == 1);
}

/// A range that is narrowed by a comparison keeps every number that meets the comparison, and
/// but for `!=` keeps no other.
pub proof fn narrowing_is_sound(interval: Interval, op: ConstraintOp, bound: U256, x: U256)
    ensures
        interval.contains(x@) && op.holds(x@, bound@) ==> constrained_interval_spec(
            interval,
            op,
            bound,
        ).contains(x@),
        constrained_interval_spec(interval, op, bound).contains(x@) ==> interval.contains(x@),
        constrained_interval_spec(interval, op, bound).contains(x@) && op !is Ne ==> op.holds(
            x@,
            bound@,
        ),
{
    lemma_neighbours(bound);
    lemma_u256_view(x);
    match op {
        ConstraintOp::Lt => {
            if let Some(upper) = previous_spec(bound) {
                intersect_is_exact(interval, None, Some(upper));
            }
        },
        ConstraintOp::Le => intersect_is_exact(interval, None, Some(bound)),
        ConstraintOp::Gt => {
            if let Some(lower) = next_spec(bound) {
                intersect_is_exact(interval, Some(lower), None);
            }
        },
        ConstraintOp::Ge => intersect_is_exact(interval, Some(bound), None),
        ConstraintOp::Eq => intersect_is_exact(interval, Some(bound), Some(bound)),
        ConstraintOp::Ne => {
            intersect_is_exact(interval, Some(U256::one_spec()), None);
            if let Some(lower) = next_spec(bound) {
                intersect_is_exact(interval, Some(lower), None);
            }
            if let Some(upper) = previous_spec(bound) {
                intersect_is_exact(interval, None, Some(upper));
            }
        },
    }
    let r = constrained_interval_spec(interval, op, bound);
    assert(r.contains(x@) || !r.contains(x@));
}

} // verus!
