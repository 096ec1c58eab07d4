//! What is not reported: masks, guards and known bits that rule a risk out.

use crate::ast::{BinOp, BuiltinTypeName, Exp, UnannotatedExp, Var};
use crate::domain::bit_facts::{complement, lemma_bit_complement, BitFacts};
use crate::domain::bits::{bit, lemma_bit_ops, lemma_bits_order};
use crate::domain::denominator::{
    denominator_factors_spec, is_product_spec, needs_factor_proofs_spec,
};
use crate::domain::state::AbstractStateView;
use crate::domain::value::ValueStateView;
use crate::domain::widths::{builtin_width_spec, is_width, type_width_spec, uint_max_spec};
use crate::rules::lossy_right_shift::is_lossy;
use crate::rules::shift_truncation::no_truncation_threshold_spec;
use crate::transfer::binop::{
    binop_value_spec, bits_or_unknown, merged_spec, raw_result_spec, shift_amount_spec,
    without_suspicious,
};
use crate::transfer::constraint_laws::merged_comparison_is_exact;
use crate::transfer::constraints::{
    apply_all_spec, apply_condition_spec, apply_constraint_spec, collect_constraints_spec,
    comparison_constraint_spec, constraint_interval_spec, merge_disjunctive_spec,
    merge_intervals_spec, ConstraintView,
};
use crate::transfer::context::Ctx;
use crate::transfer::describe::{describe_spec, extract_var_spec};
use crate::transfer::emit::weak_denominator_spec;
use crate::transfer::eval::{cast_value_spec, eval_spec, first_or_top_spec};
use crate::u256::{lemma_u256_injective, lemma_u256_of, lemma_u256_view, U256};
use vstd::prelude::*;

verus! {

/// Facts of a masked value bound it by what the mask can be.
proof fn lemma_masked_max(a: BitFacts, mask: BitFacts, width: u16)
    requires
        is_width(width),
        mask.width == width,
    ensures
        a.bitand_spec(mask, width).max_value_spec()@ <= mask.max_value_spec()@,
{
    let all = uint_max_spec(width);
    let both = a.bitand_spec(mask, width);
    let zeros = a.known_zero.or_spec(mask.known_zero);
    let lo = both.max_value_spec();
    let hi = mask.max_value_spec();
    assert forall|i: nat| i < 256 && #[trigger] bit(lo@, i) implies bit(hi@, i) by {
        lemma_bit_ops(all, complement(both.known_zero), i);
        lemma_bit_complement(both.known_zero, i);
        lemma_bit_ops(zeros, complement(all), i);
        lemma_bit_ops(a.known_zero, mask.known_zero, i);
        lemma_bit_ops(all, complement(mask.known_zero), i);
        lemma_bit_complement(mask.known_zero, i);
    }
    lemma_bits_order(lo, hi);
}

/// A cast of `x & mask` gives rise to no risk where the mask fits the type: the risks of the result
/// are those of the masked value.
pub proof fn masked_casts_are_not_reported(
    c: Ctx,
    exp: Exp,
    masked_exp: Exp,
    lhs_exp: Exp,
    lhs: ValueStateView,
    rhs_exp: Exp,
    rhs: ValueStateView,
    builtin: BuiltinTypeName,
    st: AbstractStateView,
)
    requires
        type_width_spec(masked_exp.ty) is Some,
        rhs.bit_facts is Some,
        rhs.bit_facts->0.width == type_width_spec(masked_exp.ty)->0,
        builtin_width_spec(builtin) is Some,
        rhs.bit_facts->0.max_value_spec()@ <= uint_max_spec(builtin_width_spec(builtin)->0)@,
        !binop_value_spec(
            c,
            masked_exp,
            lhs_exp,
            lhs,
            BinOp::BitAnd,
            rhs_exp,
            rhs,
            st,
        ).interval.bottom,
    ensures
        ({
            let masked = binop_value_spec(
                c,
                masked_exp,
                lhs_exp,
                lhs,
                BinOp::BitAnd,
                rhs_exp,
                rhs,
                st,
            );
            cast_value_spec(c, exp, masked_exp, masked, builtin, st).risky_origins
                == without_suspicious(masked.risky_origins)
        }),
{
    reveal(binop_value_spec);
    reveal(raw_result_spec);
    reveal(cast_value_spec);
    let width = type_width_spec(masked_exp.ty)->0;
    let a = bits_or_unknown(lhs, width);
    lemma_masked_max(a, rhs.bit_facts->0, width);
}

/// A left shift by a known amount gives rise to no risk where the operand is bounded: the risks of
/// the result are those of the operands.
pub proof fn bounded_shifts_are_not_reported(
    c: Ctx,
    exp: Exp,
    lhs_exp: Exp,
    lhs: ValueStateView,
    rhs_exp: Exp,
    rhs: ValueStateView,
    st: AbstractStateView,
    width: u16,
    amount: u8,
)
    requires
        type_width_spec(exp.ty) == Some(width),
        shift_amount_spec(rhs) == Some(amount),
        amount < width,
        lhs.interval.at_most_spec(no_truncation_threshold_spec(width, amount)),
    ensures
        binop_value_spec(c, exp, lhs_exp, lhs, BinOp::Shl, rhs_exp, rhs, st).risky_origins
            == without_suspicious(lhs.join_spec(rhs).risky_origins),
{
    reveal(binop_value_spec);
    reveal(raw_result_spec);
    reveal(merged_spec);
}

/// A right shift by a known amount gives rise to no risk where the discarded bits are known to be
/// zero: the risks of the result are those of the operands.
pub proof fn exact_right_shifts_are_not_reported(
    c: Ctx,
    exp: Exp,
    lhs_exp: Exp,
    lhs: ValueStateView,
    rhs_exp: Exp,
    rhs: ValueStateView,
    st: AbstractStateView,
    width: u16,
    amount: u8,
)
    requires
        type_width_spec(exp.ty) == Some(width),
        shift_amount_spec(rhs) == Some(amount),
        amount < width,
        !is_lossy(lhs, width, amount),
    ensures
        binop_value_spec(c, exp, lhs_exp, lhs, BinOp::Shr, rhs_exp, rhs, st).risky_origins
            == without_suspicious(lhs.join_spec(rhs).risky_origins),
{
    reveal(binop_value_spec);
    reveal(raw_result_spec);
    reveal(merged_spec);
}

/// On the path where a comparison of a variable holds, the range of the variable meets it.
proof fn lemma_guarded(
    c: Ctx,
    cond: Exp,
    lhs: Exp,
    op: BinOp,
    rhs: Exp,
    var: Var,
    bound: U256,
    st: AbstractStateView,
)
    requires
        cond.value == UnannotatedExp::BinopExp(Box::new(lhs), op, Box::new(rhs)),
        op is Le || op is Neq,
        extract_var_spec(lhs) == Some(var),
        c.const_value_spec(rhs, st) == Some(bound),
        !apply_condition_spec(c, cond, true, st).unreachable,
    ensures
        ({
            let value = c.lookup(apply_condition_spec(c, cond, true, st), var);
            &&& op is Le ==> value.interval.at_most_spec(bound)
            &&& op is Neq && bound@ == 0 ==> value.interval.positive_spec()
        }),
{
    let k = comparison_constraint_spec(c, lhs, op, rhs, true, st)->0;
    let ks = collect_constraints_spec(c, cond, true, st)->0;
    assert(ks =~= seq![k]);
    reveal_with_fuel(apply_all_spec, 2);
    assert(apply_condition_spec(c, cond, true, st) == apply_constraint_spec(c, k, st));
    if bound@ == 0 {
        lemma_u256_of(0);
        lemma_u256_injective(bound, U256::zero_spec());
    }
}

/// On the path where `x <= bound` holds, a left shift of `x` that keeps the bound in the type gives
/// rise to no risk.
pub proof fn guarded_shifts_are_not_reported(
    c: Ctx,
    cond: Exp,
    tested: Exp,
    limit: Exp,
    var: Var,
    bound: U256,
    st: AbstractStateView,
    exp: Exp,
    lhs_exp: Exp,
    rhs_exp: Exp,
    rhs: ValueStateView,
    width: u16,
    amount: u8,
)
    requires
        cond.value == UnannotatedExp::BinopExp(Box::new(tested), BinOp::Le, Box::new(limit)),
        extract_var_spec(tested) == Some(var),
        c.const_value_spec(limit, st) == Some(bound),
        !apply_condition_spec(c, cond, true, st).unreachable,
        lhs_exp.value == UnannotatedExp::Copy(var),
        type_width_spec(exp.ty) == Some(width),
        shift_amount_spec(rhs) == Some(amount),
        amount < width,
        bound@ <= no_truncation_threshold_spec(width, amount)@,
    ensures
        ({
            let next = apply_condition_spec(c, cond, true, st);
            let lhs = first_or_top_spec(eval_spec(c, lhs_exp, next).0);
            binop_value_spec(c, exp, lhs_exp, lhs, BinOp::Shl, rhs_exp, rhs, next).risky_origins
                == without_suspicious(lhs.join_spec(rhs).risky_origins)
        }),
{
    let next = apply_condition_spec(c, cond, true, st);
    let lhs = first_or_top_spec(eval_spec(c, lhs_exp, next).0);
    lemma_guarded(c, cond, tested, BinOp::Le, limit, var, bound, st);
    bounded_shifts_are_not_reported(c, exp, lhs_exp, lhs, rhs_exp, rhs, next, width, amount);
}

/// Whether all numbers that meet one of two comparisons are at most this.
pub open spec fn both_at_most(j: ConstraintView, k: ConstraintView, limit: U256) -> bool {
    forall|x: U256|
        #![trigger j.op.holds(x@, j.bound@)]
        j.op.holds(x@, j.bound@) || k.op.holds(x@, k.bound@) ==> x@ <= limit@
}

proof fn lemma_at_most(j: ConstraintView, k: ConstraintView, limit: U256, x: U256)
    requires
        both_at_most(j, k, limit),
    ensures
        j.op.holds(x@, j.bound@) || k.op.holds(x@, k.bound@) ==> x@ <= limit@,
{
    if j.op.holds(x@, j.bound@) || k.op.holds(x@, k.bound@) {
        assert(x@ <= limit@);
    }
}

proof fn lemma_merged_at_most(j: ConstraintView, k: ConstraintView, limit: U256)
    requires
        constraint_interval_spec(j.op, j.bound) is Some,
        constraint_interval_spec(k.op, k.bound) is Some,
        merge_intervals_spec(
            constraint_interval_spec(j.op, j.bound)->0,
            constraint_interval_spec(k.op, k.bound)->0,
        ) is Some,
        both_at_most(j, k, limit),
        limit@ < U256::max_value_spec()@,
    ensures
        ({
            let (op, bound) = merge_intervals_spec(
                constraint_interval_spec(j.op, j.bound)->0,
                constraint_interval_spec(k.op, k.bound)->0,
            )->0;
            op is Le && bound@ <= limit@
        }),
{
    let (op, bound) = merge_intervals_spec(
        constraint_interval_spec(j.op, j.bound)->0,
        constraint_interval_spec(k.op, k.bound)->0,
    )->0;
    let max = U256::max_value_spec();
    merged_comparison_is_exact(j.op, j.bound, k.op, k.bound, bound);
    merged_comparison_is_exact(j.op, j.bound, k.op, k.bound, max);
    lemma_u256_view(bound);
    lemma_u256_view(max);
    lemma_at_most(j, k, limit, bound);
    lemma_at_most(j, k, limit, max);
    assert(op.holds(bound@, bound@));
    assert(bound@ <= limit@);
    assert(!j.op.holds(max@, j.bound@) && !k.op.holds(max@, k.bound@));
}

/// On the path where one of two comparisons of a variable holds, the range of the variable is
/// within what they let through.
proof fn lemma_guarded_either_way(
    c: Ctx,
    cond: Exp,
    first: Exp,
    second: Exp,
    j: ConstraintView,
    k: ConstraintView,
    st: AbstractStateView,
    limit: U256,
)
    requires
        cond.value == UnannotatedExp::BinopExp(Box::new(first), BinOp::Or, Box::new(second)),
        collect_constraints_spec(c, first, true, st) == Some(seq![j]),
        collect_constraints_spec(c, second, true, st) == Some(seq![k]),
        collect_constraints_spec(c, cond, true, st) is Some,
        !apply_condition_spec(c, cond, true, st).unreachable,
        both_at_most(j, k, limit),
        limit@ < U256::max_value_spec()@,
    ensures
        c.lookup(apply_condition_spec(c, cond, true, st), j.var).interval.at_most_spec(limit),
{
    let ks = collect_constraints_spec(c, cond, true, st)->0;
    assert(Some(ks) == merge_disjunctive_spec(c, seq![j], seq![k]));
    lemma_merged_at_most(j, k, limit);
    reveal_with_fuel(apply_all_spec, 2);
    assert(apply_condition_spec(c, cond, true, st) == apply_constraint_spec(c, ks[0], st));
}

/// On the path where one of two comparisons of `x` holds, a left shift of `x` that keeps in the type
/// all numbers that meet one of them gives rise to no risk, where something is concluded from the
/// two at all.
pub proof fn shifts_guarded_either_way_are_not_reported(
    c: Ctx,
    cond: Exp,
    first: Exp,
    second: Exp,
    j: ConstraintView,
    k: ConstraintView,
    var: Var,
    st: AbstractStateView,
    exp: Exp,
    lhs_exp: Exp,
    rhs_exp: Exp,
    rhs: ValueStateView,
    width: u16,
    amount: u8,
)
    requires
        cond.value == UnannotatedExp::BinopExp(Box::new(first), BinOp::Or, Box::new(second)),
        collect_constraints_spec(c, first, true, st) == Some(seq![j]),
        collect_constraints_spec(c, second, true, st) == Some(seq![k]),
        collect_constraints_spec(c, cond, true, st) is Some,
        j.var == var,
        !apply_condition_spec(c, cond, true, st).unreachable,
        lhs_exp.value == UnannotatedExp::Copy(var),
        type_width_spec(exp.ty) == Some(width),
        shift_amount_spec(rhs) == Some(amount),
        amount < width,
        no_truncation_threshold_spec(width, amount)@ < U256::max_value_spec()@,
        both_at_most(j, k, no_truncation_threshold_spec(width, amount)),
    ensures
        ({
            let next = apply_condition_spec(c, cond, true, st);
            let lhs = first_or_top_spec(eval_spec(c, lhs_exp, next).0);
            binop_value_spec(c, exp, lhs_exp, lhs, BinOp::Shl, rhs_exp, rhs, next).risky_origins
                == without_suspicious(lhs.join_spec(rhs).risky_origins)
        }),
{
    let next = apply_condition_spec(c, cond, true, st);
    let lhs = first_or_top_spec(eval_spec(c, lhs_exp, next).0);
    lemma_guarded_either_way(
        c,
        cond,
        first,
        second,
        j,
        k,
        st,
        no_truncation_threshold_spec(width, amount),
    );
    bounded_shifts_are_not_reported(c, exp, lhs_exp, lhs, rhs_exp, rhs, next, width, amount);
}

/// Where two paths meet on each of which `x` is bounded, a left shift of `x` that keeps the bound in
/// the type gives rise to no risk.
pub proof fn shifts_bounded_on_both_paths_are_not_reported(
    c: Ctx,
    var: Var,
    a: AbstractStateView,
    b: AbstractStateView,
    exp: Exp,
    lhs_exp: Exp,
    rhs_exp: Exp,
    rhs: ValueStateView,
    width: u16,
    amount: u8,
)
    requires
        a.locals.contains_key(var.index),
        b.locals.contains_key(var.index),
        a.locals[var.index].interval.at_most_spec(no_truncation_threshold_spec(width, amount)),
        b.locals[var.index].interval.at_most_spec(no_truncation_threshold_spec(width, amount)),
        !a.join_spec(b).locals[var.index].interval.bottom,
        lhs_exp.value == UnannotatedExp::Copy(var),
        type_width_spec(exp.ty) == Some(width),
        shift_amount_spec(rhs) == Some(amount),
        amount < width,
    ensures
        ({
            let next = a.join_spec(b);
            let lhs = first_or_top_spec(eval_spec(c, lhs_exp, next).0);
            binop_value_spec(c, exp, lhs_exp, lhs, BinOp::Shl, rhs_exp, rhs, next).risky_origins
                == without_suspicious(lhs.join_spec(rhs).risky_origins)
        }),
{
    let next = a.join_spec(b);
    let lhs = first_or_top_spec(eval_spec(c, lhs_exp, next).0);
    bounded_shifts_are_not_reported(c, exp, lhs_exp, lhs, rhs_exp, rhs, next, width, amount);
}

/// On the path where `x != 0` holds, a division by `x` gives rise to no risk, unless `x` is a
/// product whose factors have to be proved one by one.
pub proof fn guarded_divisions_are_not_reported(
    c: Ctx,
    cond: Exp,
    tested: Exp,
    limit: Exp,
    var: Var,
    bound: U256,
    st: AbstractStateView,
    exp: Exp,
    numerator: ValueStateView,
    rhs_exp: Exp,
)
    requires
        cond.value == UnannotatedExp::BinopExp(Box::new(tested), BinOp::Neq, Box::new(limit)),
        extract_var_spec(tested) == Some(var),
        c.const_value_spec(limit, st) == Some(bound),
        bound@ == 0,
        !apply_condition_spec(c, cond, true, st).unreachable,
        rhs_exp.value == UnannotatedExp::Copy(var),
        ({
            let next = apply_condition_spec(c, cond, true, st);
            let denominator = first_or_top_spec(eval_spec(c, rhs_exp, next).0);
            let factors = denominator_factors_spec(
                denominator,
                describe_spec(c.function, rhs_exp),
                c.function.key.name@,
                rhs_exp.loc,
            );
            !is_product_spec(denominator.formula_facts, factors) || !needs_factor_proofs_spec(
                numerator,
                c.math_mode,
            )
        }),
    ensures
        ({
            let next = apply_condition_spec(c, cond, true, st);
            let denominator = first_or_top_spec(eval_spec(c, rhs_exp, next).0);
            weak_denominator_spec(c, exp, numerator, denominator, rhs_exp, next) is None
        }),
{
    lemma_guarded(c, cond, tested, BinOp::Neq, limit, var, bound, st);
    reveal(weak_denominator_spec);
}

} // verus!
