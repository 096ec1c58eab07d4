//! Conditions: what a path learns from them, and what it does with it.

use crate::ast::{BinOp, Exp, UnannotatedExp, Var};
use crate::domain::interval::{intersect_is_exact, Interval};
use crate::domain::risk::{ConstraintOp, PathFactView};
use crate::domain::state::AbstractStateView;
use crate::domain::widths::integer_value_spec;
use crate::laws::shifts::{reads, variables_are_found_through_casts};
use crate::text::decimal;
use crate::transfer::constraint_laws::merged_comparison_is_exact;
use crate::transfer::constraints::{
    apply_all_spec, apply_condition_spec, apply_constraint_spec, collect_constraints_spec,
    comparison_constraint_spec, constrained_interval_spec, lemma_neighbours, merge_disjunctive_spec,
    narrowing_is_sound, next_spec, or_empty, previous_spec, ConstraintView,
};
use crate::transfer::context::{fold_spec, Ctx};
use crate::transfer::describe::extract_var_spec;
use crate::u256::{full, lemma_u256_injective, lemma_u256_of, lemma_u256_view, u256_of, U256};
use vstd::prelude::*;

verus! {

/// Whether a comparison of two numbers comes out true.
pub open spec fn compares(op: BinOp, a: nat, b: nat) -> bool {
    match op {
        BinOp::Lt => a < b,
        BinOp::Le => a <= b,
        BinOp::Gt => a > b,
        BinOp::Ge => a >= b,
        BinOp::Eq => a == b,
        BinOp::Neq => a != b,
        _ => false,
    }
}

/// Whether an operator compares numbers.
pub open spec fn is_comparison(op: BinOp) -> bool {
    op is Lt || op is Le || op is Gt || op is Ge || op is Eq || op is Neq
}

/// How a comparison is written.
pub open spec fn symbol_of(op: ConstraintOp) -> Seq<char> {
    if op is Lt {
        "<"@
    } else if op is Le {
        "<="@
    } else if op is Gt {
        ">"@
    } else if op is Ge {
        ">="@
    } else if op is Eq {
        "=="@
    } else {
        "!="@
    }
}

/// Whether what is learned is about this variable and this number, and reads like it.
pub open spec fn is_learned(c: Ctx, k: ConstraintView, var: Var, bound: U256) -> bool {
    &&& k.var == var
    &&& k.bound == bound
    &&& k.text == c.function.var_name_spec(var) + " "@ + symbol_of(k.op) + " "@ + decimal(bound@)
}

/// A comparison of a variable with a known number tells exactly for which numbers in the variable it
/// comes out this way, whichever side the variable stands on.
pub proof fn comparisons_tell_what_they_compare(
    c: Ctx,
    lhs: Exp,
    op: BinOp,
    rhs: Exp,
    truthy: bool,
    st: AbstractStateView,
    var: Var,
    bound: U256,
    n: nat,
)
    requires
        is_comparison(op),
    ensures
        ({
            let k = comparison_constraint_spec(c, lhs, op, rhs, truthy, st);
            &&& reads(lhs, var) && c.const_value_spec(rhs, st) == Some(bound) ==> {
                &&& k is Some
                &&& is_learned(c, k->0, var, bound)
                &&& k->0.op.holds(n, bound@) <==> compares(op, n, bound@) == truthy
            }
            &&& (forall|v: Var| !#[trigger] reads(lhs, v)) && reads(rhs, var)
                && c.const_value_spec(lhs, st) == Some(bound) ==> {
                &&& k is Some
                &&& is_learned(c, k->0, var, bound)
                &&& k->0.op.holds(n, bound@) <==> compares(op, bound@, n) == truthy
            }
        }),
{
    variables_are_found_through_casts(lhs, var);
    variables_are_found_through_casts(rhs, var);
    if let Some(v) = extract_var_spec(lhs) {
        variables_are_found_through_casts(lhs, v);
    }
}

/// A comparison of which no side is a variable, or the other side is not known, tells nothing.
pub proof fn other_comparisons_tell_nothing(
    c: Ctx,
    lhs: Exp,
    op: BinOp,
    rhs: Exp,
    truthy: bool,
    st: AbstractStateView,
    v: Var,
)
    requires
        comparison_constraint_spec(c, lhs, op, rhs, truthy, st) is Some,
    ensures
        is_comparison(op),
        ({
            let k = comparison_constraint_spec(c, lhs, op, rhs, truthy, st)->0;
            ||| reads(lhs, k.var) && c.const_value_spec(rhs, st) == Some(k.bound)
            ||| reads(rhs, k.var) && c.const_value_spec(lhs, st) == Some(k.bound) && !reads(
                lhs,
                v,
            )
        }),
{
    let k = comparison_constraint_spec(c, lhs, op, rhs, truthy, st)->0;
    variables_are_found_through_casts(lhs, k.var);
    variables_are_found_through_casts(rhs, k.var);
    variables_are_found_through_casts(lhs, v);
}

/// What conditions tell: a negation what the condition tells when it comes out the other way; a
/// conjunction that is true, and a disjunction that is false, what both sides tell; a comparison
/// what it compares; and anything else nothing.
pub proof fn conditions_tell_what_their_parts_do(
    c: Ctx,
    e: Exp,
    truthy: bool,
    st: AbstractStateView,
)
    ensures
        ({
            let told = collect_constraints_spec(c, e, truthy, st);
            match e.value {
                UnannotatedExp::Not(inner) => told == collect_constraints_spec(
                    c,
                    *inner,
                    !truthy,
                    st,
                ),
                UnannotatedExp::BinopExp(lhs, op, rhs) => {
                    let l = collect_constraints_spec(c, *lhs, truthy, st);
                    let r = collect_constraints_spec(c, *rhs, truthy, st);
                    let all = or_empty(told);
                    let ls = if l is Some {
                        l->0
                    } else {
                        Seq::empty()
                    };
                    let rs = if r is Some {
                        r->0
                    } else {
                        Seq::empty()
                    };
                    &&& op is And && truthy || op is Or && !truthy ==> told == Some(ls + rs)
                    &&& (op is And && !truthy || op is Or && truthy) && (l is None || r is None)
                        ==> told is None
                    &&& is_comparison(op) ==> (told is Some <==> comparison_constraint_spec(
                        c,
                        *lhs,
                        op,
                        *rhs,
                        truthy,
                        st,
                    ) is Some)
                    &&& is_comparison(op) && told is Some ==> told->0.len() == 1 && told->0[0]
                        == comparison_constraint_spec(c, *lhs, op, *rhs, truthy, st)->0
                    &&& !is_comparison(op) && !(op is And) && !(op is Or) ==> told is None
                },
                _ => told is None,
            }
        }),
{
}

/// Two comparisons of one variable of which one holds are told as one where both bound it from the
/// same side: it holds of exactly the numbers that meet either. Of comparisons of different
/// variables, and of more than one on a side, nothing is told.
pub proof fn either_of_two_bounds_is_told(
    c: Ctx,
    a: ConstraintView,
    b: ConstraintView,
    n: nat,
)
    requires
        a.var == b.var,
        n < full(),
        (a.op is Lt && a.bound@ > 0 || a.op is Le) && (b.op is Lt && b.bound@ > 0 || b.op is Le) || (
        a.op is Gt && a.bound@ + 1 < full() || a.op is Ge) && (b.op is Gt && b.bound@
            + 1 < full() || b.op is Ge),
    ensures
        ({
            let told = merge_disjunctive_spec(c, seq![a], seq![b]);
            &&& told is Some
            &&& told->0.len() == 1
            &&& is_learned(c, told->0[0], a.var, told->0[0].bound)
            &&& told->0[0].op.holds(n, told->0[0].bound@) <==> a.op.holds(n, a.bound@)
                || b.op.holds(n, b.bound@)
        }),
{
    lemma_neighbours(a.bound);
    lemma_neighbours(b.bound);
    let max = U256::max_value_spec();
    lemma_u256_view(max);
    lemma_u256_view(a.bound);
    lemma_u256_view(b.bound);
    let told = merge_disjunctive_spec(c, seq![a], seq![b]);
    lemma_u256_injective(U256::zero_spec(), U256::zero_spec());
    if told is Some {
        lemma_u256_of(n);
        let x = u256_of(n);
        merged_comparison_is_exact(
            a.op,
            a.bound,
            b.op,
            b.bound,
            x,
        );
    }
}

/// Comparisons of different variables, or more than one on a side, are not told as one.
pub proof fn unlike_bounds_are_not_told(c: Ctx, l: Seq<ConstraintView>, r: Seq<ConstraintView>)
    requires
        l.len() != 1 || r.len() != 1 || l[0].var != r[0].var || l[0].op is Ne || r[0].op is Ne,
    ensures
        merge_disjunctive_spec(c, l, r) is None,
{
}

/// A number that is ruled out at an end of a range, or is zero, is cut off.
pub proof fn numbers_ruled_out_at_an_end_are_cut_off(interval: Interval, bound: U256)
    requires
        interval.lower == Some(bound) || interval.upper == Some(bound) || bound@ == 0,
    ensures
        !constrained_interval_spec(interval, ConstraintOp::Ne, bound).contains(bound@),
{
    lemma_neighbours(bound);
    if bound@ == 0 {
        lemma_u256_injective(bound, U256::zero_spec());
    }
    intersect_is_exact(interval, Some(U256::one_spec()), None);
    if let Some(lower) = next_spec(bound) {
        intersect_is_exact(interval, Some(lower), None);
    }
    if let Some(upper) = previous_spec(bound) {
        intersect_is_exact(interval, None, Some(upper));
    }
}

/// A path that learns a comparison closes where no number of the variable is left. Else it keeps the
/// comparison among its facts, once, after those that it had; the variable keeps exactly the numbers
/// that meet it, but for `!=`; its factor of that name is above zero where its range now is; and
/// every other variable stays as it was.
pub proof fn paths_keep_what_they_learn(
    c: Ctx,
    k: ConstraintView,
    st: AbstractStateView,
    x: U256,
    other: usize,
    i: int,
)
    requires
        other != k.var.index,
    ensures
        ({
            let after = apply_constraint_spec(c, k, st);
            let fact = PathFactView {
                var: Some(k.var),
                op: k.op,
                bound: Some(k.bound),
                text: k.text,
            };
            let value = c.lookup(st, k.var);
            let narrowed = after.locals[k.var.index];
            let left = constrained_interval_spec(value.interval, k.op, k.bound);
            &&& left.bottom ==> after.unreachable && after.locals == st.locals && after.path_facts
                == st.path_facts
            &&& value.interval.contains(x@) && k.op.holds(x@, k.bound@) ==> !left.bottom
            &&& !left.bottom ==> {
                &&& after.unreachable == st.unreachable
                &&& after.path_facts.contains(fact)
                &&& st.path_facts.is_prefix_of(after.path_facts)
                &&& after.path_facts.len() <= st.path_facts.len() + 1
                &&& st.path_facts.contains(fact) ==> after.path_facts == st.path_facts
                &&& after.locals.contains_key(k.var.index)
                &&& value.interval.contains(x@) && k.op.holds(x@, k.bound@)
                    ==> narrowed.interval.contains(x@)
                &&& narrowed.interval.contains(x@) ==> value.interval.contains(x@) && (
                k.op.holds(x@, k.bound@) || k.op is Ne)
                &&& narrowed.bit_facts == value.bit_facts
                &&& narrowed.risky_origins == value.risky_origins
                &&& narrowed.parameter_dependencies == value.parameter_dependencies
                &&& narrowed.formula_facts is Some <==> value.formula_facts is Some
                &&& value.formula_facts is Some && 0 <= i < value.formula_facts->0.factors.len()
                    ==> {
                    let before = value.formula_facts->0.factors[i];
                    let now = narrowed.formula_facts->0.factors[i];
                    &&& before.name == c.function.var_name_spec(k.var) ==> (now.strict_positive
                        <==> narrowed.interval.lower is Some && narrowed.interval.lower->0@ > 0)
                    &&& before.name != c.function.var_name_spec(k.var) ==> now == before
                }
                &&& after.locals.contains_key(other) <==> st.locals.contains_key(other)
                &&& st.locals.contains_key(other) ==> after.locals[other] == st.locals[other]
            }
        }),
{
    let value = c.lookup(st, k.var);
    narrowing_is_sound(value.interval, k.op, k.bound, x);
    let fact = PathFactView { var: Some(k.var), op: k.op, bound: Some(k.bound), text: k.text };
    assert(st.path_facts.push(fact)[st.path_facts.len() as int] == fact);
    assert(st.path_facts.push(fact).contains(fact));
}

/// A path goes by what its condition tells, one comparison after the other, until it closes; where
/// the condition tells nothing, it goes on as it is.
pub proof fn paths_go_by_their_condition(c: Ctx, e: Exp, truthy: bool, st: AbstractStateView, i: nat)
    ensures
        ({
            let told = collect_constraints_spec(c, e, truthy, st);
            let after = apply_condition_spec(c, e, truthy, st);
            &&& st.unreachable || told is None || told->0.len() == 0 ==> after == st
            &&& !st.unreachable && told is Some && told->0.len() == 1 ==> after
                == apply_constraint_spec(c, told->0[0], st)
            &&& told is Some && i < told->0.len() ==> {
                let before = apply_all_spec(c, told->0, i, st);
                let next = apply_all_spec(c, told->0, i + 1, st);
                &&& before.unreachable ==> next == before
                &&& !before.unreachable ==> next == apply_constraint_spec(
                    c,
                    told->0[i as int],
                    before,
                )
            }
            &&& told is Some && !st.unreachable ==> after == apply_all_spec(
                c,
                told->0,
                told->0.len(),
                st,
            )
        }),
{
    if let Some(ks) = collect_constraints_spec(c, e, truthy, st) {
        assert(apply_all_spec(c, ks, 0, st) == st);
    }
}

/// A literal is known, a variable where its value is, and an operation where both operands are and
/// it has a result on them; a cast keeps a known number.
pub proof fn constants_are_found(c: Ctx, e: Exp, st: AbstractStateView)
    ensures
        ({
            let known = c.const_value_spec(e, st);
            match e.value {
                UnannotatedExp::Value(literal) => known == integer_value_spec(literal),
                UnannotatedExp::Move(var)
                | UnannotatedExp::Copy(var)
                | UnannotatedExp::BorrowLocal(var) => st.locals.contains_key(var.index) ==> known
                    == st.locals[var.index].exact_value_spec(),
                UnannotatedExp::Cast(inner, _) => known == c.const_value_spec(*inner, st),
                UnannotatedExp::BinopExp(lhs, op, rhs) => {
                    let (l, r) = (c.const_value_spec(*lhs, st), c.const_value_spec(*rhs, st));
                    &&& l is Some && r is Some ==> known == fold_spec(op, l->0, r->0)
                    &&& l is None || r is None ==> known is None
                },
                _ => known is None,
            }
        }),
{
}

/// Where two paths meet, a variable has the join of its values on both, or the value of the one path
/// that has one; a fact is kept where both have it; and one closed path leaves the other as it is.
pub proof fn meeting_paths_join_their_variables(
    a: AbstractStateView,
    b: AbstractStateView,
    k: usize,
    fact: PathFactView,
)
    ensures
        ({
            let both = a.join_spec(b);
            &&& a.unreachable ==> both == b
            &&& !a.unreachable && b.unreachable ==> both == a
            &&& !a.unreachable && !b.unreachable ==> {
                &&& !both.unreachable
                &&& both.path_facts.contains(fact) <==> a.path_facts.contains(fact)
                    && b.path_facts.contains(fact)
                &&& a.locals.contains_key(k) && b.locals.contains_key(k)
                    ==> both.locals.contains_key(k) && both.locals[k] == a.locals[k].join_spec(
                    b.locals[k],
                )
                &&& a.locals.contains_key(k) && !b.locals.contains_key(k)
                    ==> both.locals.contains_key(k) && both.locals[k] == a.locals[k]
                &&& !a.locals.contains_key(k) && b.locals.contains_key(k)
                    ==> both.locals.contains_key(k) && both.locals[k] == b.locals[k]
                &&& !a.locals.contains_key(k) && !b.locals.contains_key(k)
                    ==> !both.locals.contains_key(k)
            }
        }),
{
    let shared = |f: PathFactView| b.path_facts.contains(f);
    if a.path_facts.filter(shared).contains(fact) {
        a.path_facts.lemma_filter_contains_rev(shared, fact);
    }
    if a.path_facts.contains(fact) && b.path_facts.contains(fact) {
        let i = choose|i: int| 0 <= i < a.path_facts.len() && a.path_facts[i] == fact;
        a.path_facts.lemma_filter_contains(shared, i);
    }
}

} // verus!
