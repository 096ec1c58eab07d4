//! What narrowing by conditions keeps.

use crate::ast::{BinOp, Exp, UnannotatedExp};
use crate::domain::bit_facts::{low_bits_are_a_remainder, mask_keeps_what_fits};
use crate::domain::interval::Interval;
use crate::domain::risk::ConstraintOp;
use crate::domain::state::AbstractStateView;
use crate::domain::value::exact_value_is_unique;
use crate::domain::widths::{
    is_width, lemma_pow2_fits, lemma_pow2_widths, low_mask_spec, type_width_spec,
    uint_max_is_all_ones, uint_max_spec,
};
use crate::transfer::constraints::{
    apply_all_spec, apply_condition_spec, apply_constraint_spec, collect_constraints_spec,
    comparison_constraint_spec, constrained_interval_spec, constraint_interval_spec,
    constraint_op_spec, lemma_neighbours, merge_disjunctive_spec, merge_intervals_spec,
    merge_overlapping_spec, narrowing_is_sound, or_empty, ConstraintView,
};
use crate::transfer::context::{fold_spec, Ctx};
use crate::transfer::describe::extract_var_spec;
use crate::transfer::semantics::{fits, number_of, result_of};
use crate::transfer::soundness::tracks;
use crate::u256::{full, lemma_u256_injective, lemma_u256_of, lemma_u256_view, u256_of, U256};
use vstd::arithmetic::power2::pow2;
use vstd::prelude::*;

verus! {

/// The range of a comparison holds exactly the numbers that meet it.
pub proof fn constraint_interval_is_exact(op: ConstraintOp, bound: U256, x: U256)
    ensures
        op is Ne <==> constraint_interval_spec(op, bound) is None,
        constraint_interval_spec(op, bound) is Some ==> (constraint_interval_spec(
            op,
            bound,
        )->0.contains(x@) <==> op.holds(x@, bound@)),
{
    lemma_neighbours(bound);
    lemma_u256_view(x);
}

/// A comparison that stands for two ranges holds of every number of both.
pub proof fn merged_comparison_covers_both(left: Interval, right: Interval, x: U256)
    requires
        merge_intervals_spec(left, right) is Some,
        left.contains(x@) || right.contains(x@),
    ensures
        ({
            let (op, bound) = merge_intervals_spec(left, right)->0;
            op.holds(x@, bound@)
        }),
{
}

/// A range with both ends, or an empty one with none.
spec fn is_closed_or_empty(range: Interval) -> bool {
    if range.bottom {
        range.lower is None && range.upper is None
    } else {
        range.lower is Some && range.upper is Some
    }
}

proof fn lemma_merged_exact(left: Interval, right: Interval, x: U256)
    requires
        is_closed_or_empty(left),
        is_closed_or_empty(right),
        merge_intervals_spec(left, right) is Some,
    ensures
        ({
            let (op, bound) = merge_intervals_spec(left, right)->0;
            op.holds(x@, bound@) <==> left.contains(x@) || right.contains(x@)
        }),
{
    lemma_u256_view(x);
    lemma_u256_of(0);
    lemma_u256_view(U256::max_value_spec());
    assert(merge_overlapping_spec(left, right) == merge_intervals_spec(left, right));
}

/// A comparison that stands for two comparisons holds of exactly the numbers that meet one of them.
pub proof fn merged_comparison_is_exact(
    a: ConstraintOp,
    a_bound: U256,
    b: ConstraintOp,
    b_bound: U256,
    x: U256,
)
    requires
        constraint_interval_spec(a, a_bound) is Some,
        constraint_interval_spec(b, b_bound) is Some,
        merge_intervals_spec(
            constraint_interval_spec(a, a_bound)->0,
            constraint_interval_spec(b, b_bound)->0,
        ) is Some,
    ensures
        ({
            let left = constraint_interval_spec(a, a_bound)->0;
            let right = constraint_interval_spec(b, b_bound)->0;
            let (op, bound) = merge_intervals_spec(left, right)->0;
            &&& op.holds(x@, bound@) <==> left.contains(x@) || right.contains(x@)
            &&& op.holds(x@, bound@) <==> a.holds(x@, a_bound@) || b.holds(x@, b_bound@)
        }),
{
    constraint_interval_is_exact(a, a_bound, x);
    constraint_interval_is_exact(b, b_bound, x);
    lemma_merged_exact(
        constraint_interval_spec(a, a_bound)->0,
        constraint_interval_spec(b, b_bound)->0,
        x,
    );
}

/// Whether the numbers in the variables meet a comparison.
pub open spec fn met(k: ConstraintView, values: Map<usize, U256>) -> bool {
    values.contains_key(k.var.index) && k.op.holds(values[k.var.index]@, k.bound@)
}

/// Whether the numbers in the variables meet all comparisons.
pub open spec fn all_met(ks: Seq<ConstraintView>, values: Map<usize, U256>) -> bool {
    forall|i: int| 0 <= i < ks.len() ==> met(#[trigger] ks[i], values)
}

/// The variable that an expression is, but for casts, holds the number of the expression.
proof fn lemma_extracted_var(e: Exp, values: Map<usize, U256>)
    requires
        number_of(e, values) is Some,
        extract_var_spec(e) is Some,
    ensures
        values.contains_key(extract_var_spec(e)->0.index),
        values[extract_var_spec(e)->0.index] == number_of(e, values)->0,
    decreases e,
{
    match e.value {
        UnannotatedExp::Cast(inner, _) => lemma_extracted_var(*inner, values),
        _ => {},
    }
}

/// A left shift, cut to the width of its type, is what programs compute.
proof fn lemma_cut_shift(width: u16, x: U256, y: U256)
    requires
        is_width(width),
        y@ < width,
    ensures
        x.shl_spec(y@ % 256).and_spec(uint_max_spec(width)) == u256_of(
            (x@ * pow2(y@)) % pow2(width as nat),
        ),
{
    let n = x@ * pow2(y@);
    let w = width as nat;
    let z = x.shl_spec(y@ % 256);
    vstd::arithmetic::div_mod::lemma_small_mod(y@, 256);
    vstd::arithmetic::div_mod::lemma_mod_bound(n as int, full() as int);
    lemma_u256_of(n % full());
    lemma_pow2_widths();
    vstd::arithmetic::power2::lemma_pow2_pos(w);
    vstd::arithmetic::div_mod::lemma_mod_bound(n as int, pow2(w) as int);
    if width == 256 {
        uint_max_is_all_ones(256);
        mask_keeps_what_fits(z, 256);
    } else {
        let rest = (256 - width) as nat;
        vstd::arithmetic::power2::lemma_pow2_adds(w, rest);
        vstd::arithmetic::power2::lemma_pow2_pos(rest);
        vstd::arithmetic::div_mod::lemma_mod_mod(n as int, pow2(w) as int, pow2(rest) as int);
        uint_max_is_all_ones(width);
        lemma_pow2_fits(w);
        lemma_u256_of((pow2(w) - 1) as nat);
        lemma_u256_injective(uint_max_spec(width), low_mask_spec(width as u8));
        low_bits_are_a_remainder(z, width as u8);
        lemma_u256_of(n % pow2(w));
        lemma_u256_injective(
            z.and_spec(uint_max_spec(width)),
            u256_of(n % pow2(w)),
        );
    }
}

/// Whether every left shift in an expression, computed on 256 bits, stays within its type.
pub open spec fn shifts_stay_in_type(e: Exp, values: Map<usize, U256>) -> bool
    decreases e,
{
    match e.value {
        UnannotatedExp::Cast(inner, _) => shifts_stay_in_type(*inner, values),
        UnannotatedExp::BinopExp(lhs, op, rhs) => {
            &&& shifts_stay_in_type(*lhs, values)
            &&& shifts_stay_in_type(*rhs, values)
            &&& op is Shl ==> match (
                number_of(*lhs, values),
                number_of(*rhs, values),
                type_width_spec(e.ty),
            ) {
                (Some(x), Some(y), Some(width)) => fits(width, x.shl_spec(y@ % 256)),
                _ => true,
            }
        },
        _ => true,
    }
}

/// A result that a program computes is the result of folding, unless a left shift leaves its type.
proof fn lemma_folded(op: BinOp, width: Option<u16>, x: U256, y: U256)
    requires
        width is Some ==> is_width(width->0),
        fold_spec(op, x, y) is Some,
        result_of(op, width, x, y) is Some,
        op is Shl ==> fits(width->0, x.shl_spec(y@ % 256)),
    ensures
        fold_spec(op, x, y) == result_of(op, width, x, y),
{
    match op {
        BinOp::Shl => {
            lemma_cut_shift(width->0, x, y);
            mask_keeps_what_fits(x.shl_spec(y@ % 256), width->0);
        },
        BinOp::Shr => {
            vstd::arithmetic::div_mod::lemma_small_mod(y@, 256);
        },
        _ => {},
    }
}

/// An expression that is known to be a number comes out as that number. Left out are expressions
/// with a left shift that, computed on 256 bits, leaves its type.
pub proof fn constants_fold_right(
    c: Ctx,
    e: Exp,
    st: AbstractStateView,
    values: Map<usize, U256>,
)
    requires
        tracks(st, values),
        number_of(e, values) is Some,
        c.const_value_spec(e, st) is Some,
        shifts_stay_in_type(e, values),
    ensures
        c.const_value_spec(e, st) == number_of(e, values),
    decreases e,
{
    match e.value {
        UnannotatedExp::Move(var) | UnannotatedExp::Copy(var) => {
            assert(values.contains_key(var.index));
            exact_value_is_unique(st.locals[var.index], values[var.index]);
        },
        UnannotatedExp::Cast(inner, _) => constants_fold_right(c, *inner, st, values),
        UnannotatedExp::BinopExp(lhs, op, rhs) => {
            constants_fold_right(c, *lhs, st, values);
            constants_fold_right(c, *rhs, st, values);
            lemma_folded(
                op,
                type_width_spec(e.ty),
                number_of(*lhs, values)->0,
                number_of(*rhs, values)->0,
            );
        },
        _ => {},
    }
}

/// Whether an expression that is known to be a number comes out as that number, where it comes out
/// as one at all.
pub open spec fn constant_is_right(
    c: Ctx,
    e: Exp,
    st: AbstractStateView,
    values: Map<usize, U256>,
) -> bool {
    c.const_value_spec(e, st) is Some && number_of(e, values) is Some ==> c.const_value_spec(e, st)
        == number_of(e, values)
}

/// Whether the constants in the comparisons that a condition comes down to are right.
pub open spec fn constants_are_right(
    c: Ctx,
    e: Exp,
    st: AbstractStateView,
    values: Map<usize, U256>,
) -> bool
    decreases e,
{
    match e.value {
        UnannotatedExp::Not(inner) => constants_are_right(c, *inner, st, values),
        UnannotatedExp::BinopExp(lhs, op, rhs) => if op is And || op is Or {
            &&& constants_are_right(c, *lhs, st, values)
            &&& number_of(*lhs, values) is None || (op is And) == (number_of(*lhs, values)->0@ != 0)
                ==> constants_are_right(c, *rhs, st, values)
        } else {
            constant_is_right(c, *lhs, st, values) && constant_is_right(c, *rhs, st, values)
        },
        _ => true,
    }
}

/// Whether a condition can come out one way, given the numbers in the variables. One on followed
/// numbers comes out as they say. A part that does more than compute on followed numbers can come
/// out either way, as long as nothing is concluded from it.
pub open spec fn can_come_out(
    c: Ctx,
    e: Exp,
    truth: bool,
    st: AbstractStateView,
    values: Map<usize, U256>,
) -> bool
    decreases e,
{
    match number_of(e, values) {
        Some(x) => truth == (x@ != 0),
        None => match e.value {
            UnannotatedExp::Not(inner) => can_come_out(c, *inner, !truth, st, values),
            UnannotatedExp::BinopExp(lhs, BinOp::And, rhs) => if truth {
                can_come_out(c, *lhs, true, st, values) && can_come_out(c, *rhs, true, st, values)
            } else {
                can_come_out(c, *lhs, false, st, values) || can_come_out(c, *rhs, false, st, values)
            },
            UnannotatedExp::BinopExp(lhs, BinOp::Or, rhs) => if truth {
                can_come_out(c, *lhs, true, st, values) || can_come_out(c, *rhs, true, st, values)
            } else {
                can_come_out(c, *lhs, false, st, values) && can_come_out(c, *rhs, false, st, values)
            },
            _ => or_empty(collect_constraints_spec(c, e, truth, st)).len() == 0,
        },
    }
}

proof fn lemma_comparison(
    c: Ctx,
    e: Exp,
    truth: bool,
    st: AbstractStateView,
    values: Map<usize, U256>,
)
    requires
        tracks(st, values),
        e.value is BinopExp,
        constraint_op_spec(e.value->BinopExp_1) is Some,
        number_of(e, values) is Some,
        truth == (number_of(e, values)->0@ != 0),
        constants_are_right(c, e, st, values),
    ensures
        ({
            let k = comparison_constraint_spec(
                c,
                *e.value->BinopExp_0,
                e.value->BinopExp_1,
                *e.value->BinopExp_2,
                truth,
                st,
            );
            k is Some ==> met(k->0, values)
        }),
{
    let lhs = *e.value->BinopExp_0;
    let op = e.value->BinopExp_1;
    let rhs = *e.value->BinopExp_2;
    let x = number_of(lhs, values)->0;
    let y = number_of(rhs, values)->0;
    if x@ == y@ {
        lemma_u256_injective(x, y);
    }
    if extract_var_spec(lhs) is Some {
        lemma_extracted_var(lhs, values);
    } else if extract_var_spec(rhs) is Some {
        lemma_extracted_var(rhs, values);
    }
}

/// Whether a condition can come out one way, and has the right constants.
spec fn can_be_read(
    c: Ctx,
    e: Exp,
    truth: bool,
    st: AbstractStateView,
    values: Map<usize, U256>,
) -> bool {
    can_come_out(c, e, truth, st, values) && constants_are_right(c, e, st, values)
}

/// The parts of a condition come out so that it can come out as it does, and those that matter have
/// the right constants.
proof fn lemma_parts_come_out(
    c: Ctx,
    e: Exp,
    truth: bool,
    st: AbstractStateView,
    values: Map<usize, U256>,
)
    requires
        can_come_out(c, e, truth, st, values),
        constants_are_right(c, e, st, values),
    ensures
        match e.value {
            UnannotatedExp::Not(inner) => can_be_read(c, *inner, !truth, st, values),
            UnannotatedExp::BinopExp(lhs, op, rhs) => if op is And || op is Or {
                if (op is And) == truth {
                    can_be_read(c, *lhs, truth, st, values) && can_be_read(c, *rhs, truth, st, values)
                } else {
                    can_be_read(c, *lhs, truth, st, values) || can_be_read(c, *rhs, truth, st, values)
                }
            } else {
                true
            },
            _ => true,
        },
{
    reveal_with_fuel(can_come_out, 2);
    reveal_with_fuel(constants_are_right, 2);
    reveal_with_fuel(number_of, 2);
}

/// Everything that is concluded from the outcome of a condition is true of the numbers in the
/// variables. Left out are conditions with a wrong constant.
#[verifier::rlimit(30)]
pub proof fn collected_constraints_hold(
    c: Ctx,
    e: Exp,
    truth: bool,
    st: AbstractStateView,
    values: Map<usize, U256>,
)
    requires
        tracks(st, values),
        can_come_out(c, e, truth, st, values),
        constants_are_right(c, e, st, values),
    ensures
        all_met(or_empty(collect_constraints_spec(c, e, truth, st)), values),
    decreases e,
{
    lemma_parts_come_out(c, e, truth, st, values);
    match e.value {
        UnannotatedExp::Not(inner) => {
            collected_constraints_hold(c, *inner, !truth, st, values);
        },
        UnannotatedExp::BinopExp(lhs, op, rhs) => match op {
            BinOp::And | BinOp::Or => {
                let l = collect_constraints_spec(c, *lhs, truth, st);
                let r = collect_constraints_spec(c, *rhs, truth, st);
                if (op is And) == truth {
                    collected_constraints_hold(c, *lhs, truth, st, values);
                    collected_constraints_hold(c, *rhs, truth, st, values);
                    let both = or_empty(l) + or_empty(r);
                    assert forall|i: int| 0 <= i < both.len() implies met(
                        #[trigger] both[i],
                        values,
                    ) by {
                        if i < or_empty(l).len() {
                            assert(both[i] == or_empty(l)[i]);
                        } else {
                            assert(both[i] == or_empty(r)[i - or_empty(l).len()]);
                        }
                    }
                } else if l is Some && r is Some {
                    if can_be_read(c, *lhs, truth, st, values) {
                        collected_constraints_hold(c, *lhs, truth, st, values);
                    } else {
                        collected_constraints_hold(c, *rhs, truth, st, values);
                    }
                    if merge_disjunctive_spec(c, l->0, r->0) is Some {
                        lemma_disjunction(c, l->0, r->0, values);
                    }
                }
            },
            BinOp::Lt | BinOp::Le | BinOp::Gt | BinOp::Ge | BinOp::Eq | BinOp::Neq => {
                if number_of(e, values) is Some {
                    lemma_comparison(c, e, truth, st, values);
                }
            },
            _ => {},
        },
        _ => {},
    }
}

proof fn lemma_disjunction(
    c: Ctx,
    left: Seq<ConstraintView>,
    right: Seq<ConstraintView>,
    values: Map<usize, U256>,
)
    requires
        merge_disjunctive_spec(c, left, right) is Some,
        all_met(left, values) || all_met(right, values),
    ensures
        all_met(merge_disjunctive_spec(c, left, right)->0, values),
{
    let x = values[left[0].var.index];
    constraint_interval_is_exact(left[0].op, left[0].bound, x);
    constraint_interval_is_exact(right[0].op, right[0].bound, x);
    let l = constraint_interval_spec(left[0].op, left[0].bound)->0;
    let r = constraint_interval_spec(right[0].op, right[0].bound)->0;
    if all_met(left, values) {
        assert(met(left[0], values));
    } else {
        assert(met(right[0], values));
    }
    merged_comparison_covers_both(l, r, x);
}

proof fn lemma_apply_one(
    c: Ctx,
    k: ConstraintView,
    st: AbstractStateView,
    values: Map<usize, U256>,
)
    requires
        tracks(st, values),
        met(k, values),
    ensures
        tracks(apply_constraint_spec(c, k, st), values),
{
    let value = c.lookup(st, k.var);
    let x = values[k.var.index];
    assert(values.contains_key(k.var.index));
    narrowing_is_sound(value.interval, k.op, k.bound, x);
    let next = apply_constraint_spec(c, k, st);
    assert(constrained_interval_spec(value.interval, k.op, k.bound).contains(x@));
    assert forall|i: usize| #[trigger] values.contains_key(i) implies next.locals.contains_key(i)
        && next.locals[i].valid() && next.locals[i].admits(values[i]) by {
        if i != k.var.index {
            assert(next.locals[i] == st.locals[i]);
        }
    }
}

proof fn lemma_apply_all(
    c: Ctx,
    ks: Seq<ConstraintView>,
    n: nat,
    st: AbstractStateView,
    values: Map<usize, U256>,
)
    requires
        tracks(st, values),
        all_met(ks, values),
        n <= ks.len(),
    ensures
        tracks(apply_all_spec(c, ks, n, st), values),
    decreases n,
{
    if n > 0 {
        lemma_apply_all(c, ks, (n - 1) as nat, st, values);
        assert(met(ks[n - 1], values));
        lemma_apply_one(c, ks[n - 1], apply_all_spec(c, ks, (n - 1) as nat, st), values);
    }
}

/// On the path where a condition came out one way, the narrowed state still follows the numbers in
/// the variables; in particular a path that a program takes is never held to be unreachable. Left
/// out are conditions with a wrong constant.
pub proof fn narrowed_state_follows_the_path(
    c: Ctx,
    e: Exp,
    truth: bool,
    st: AbstractStateView,
    values: Map<usize, U256>,
)
    requires
        tracks(st, values),
        can_come_out(c, e, truth, st, values),
        constants_are_right(c, e, st, values),
    ensures
        tracks(apply_condition_spec(c, e, truth, st), values),
{
    collected_constraints_hold(c, e, truth, st, values);
    if let Some(ks) = collect_constraints_spec(c, e, truth, st) {
        lemma_apply_all(c, ks, ks.len(), st, values);
    }
}

} // verus!
