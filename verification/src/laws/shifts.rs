//! Left shifts: which of them may cut bits off, and which of these only look checked.

use crate::ast::{BinOp, Exp, UnannotatedExp, Var};
use crate::domain::risk::{origin_key_spec, PathFactView, RiskKind};
use crate::domain::state::AbstractStateView;
use crate::domain::value::ValueStateView;
use crate::domain::widths::{is_width, type_width_spec, uint_max_is_all_ones};
use crate::rules::RuleCtxView;
use crate::rules::shift_truncation::{
    check_shl_spec, no_truncation_threshold_spec, threshold_is_exact,
};
use crate::transfer::binop::{
    binop_value_spec, guard_of, least_guard, merged_spec, raw_result_spec, shift_amount_spec,
    strongest_upper_bound_spec, truncation_origin_spec,
};
use crate::transfer::context::Ctx;
use crate::transfer::describe::{describe_spec, extract_var_spec};
use crate::transfer::emit::make_origin_spec;
use crate::transfer::risks::{
    carries, coherent, lemma_push_new, lemma_raw_result, lemma_truncating_raw,
    lemma_without_suspicious,
};
use crate::u256::{lemma_u256_injective, lemma_u256_of, lemma_u256_view, U256};
use vstd::arithmetic::power2::pow2;
use vstd::prelude::*;

verus! {

/// Whether an expression is a variable, read as it is or cast.
pub open spec fn reads(e: Exp, var: Var) -> bool
    decreases e,
{
    match e.value {
        UnannotatedExp::Move(v) | UnannotatedExp::Copy(v) | UnannotatedExp::BorrowLocal(v) => v
            == var,
        UnannotatedExp::Cast(inner, _) => reads(*inner, var),
        _ => false,
    }
}

/// Whether a number loses bits when it is shifted left by this amount.
pub open spec fn is_cut(n: nat, width: u16, amount: nat) -> bool {
    n * pow2(amount) >= pow2(width as nat)
}

/// Whether a path fact bounds a variable from above.
pub open spec fn is_guard(fact: PathFactView, var: Var) -> bool {
    &&& fact.var == Some(var)
    &&& fact.bound is Some
    &&& fact.op is Lt || fact.op is Le || fact.op is Eq
}

/// Whether a comparison lets a number through that the shift cuts.
pub open spec fn lets_through(fact: PathFactView, width: u16, amount: nat) -> bool {
    exists|n: nat| #[trigger] fact.op.holds(n, fact.bound->0@) && is_cut(n, width, amount)
}

/// Whether the facts check a variable before it is shifted, and yet let numbers through that the
/// shift cuts.
pub open spec fn is_fake_check(
    facts: Seq<PathFactView>,
    var: Var,
    width: u16,
    amount: nat,
) -> bool {
    &&& exists|i: int| 0 <= i < facts.len() && is_guard(#[trigger] facts[i], var)
    &&& forall|i: int|
        0 <= i < facts.len() && is_guard(#[trigger] facts[i], var) ==> lets_through(
            facts[i],
            width,
            amount,
        )
}

/// The same for an expression: it is a variable, and the check of the variable is fake.
pub open spec fn is_fakely_checked(
    e: Exp,
    facts: Seq<PathFactView>,
    width: u16,
    amount: nat,
) -> bool {
    exists|var: Var| #[trigger] reads(e, var) && is_fake_check(facts, var, width, amount)
}

/// Whether nothing that is known of the range of a value keeps its shift from losing bits.
pub open spec fn may_be_cut(value: ValueStateView, width: u16, amount: nat) -> bool {
    value.interval.upper is None || is_cut(value.interval.upper->0@, width, amount)
}

/// The variable behind an expression is the one that it reads.
pub proof fn variables_are_found_through_casts(e: Exp, var: Var)
    ensures
        extract_var_spec(e) == Some(var) <==> reads(e, var),
    decreases e,
{
    if let UnannotatedExp::Cast(inner, _) = e.value {
        variables_are_found_through_casts(*inner, var);
    }
}

pub proof fn lemma_cut(width: u16, amount: u8, x: U256)
    requires
        is_width(width),
    ensures
        x@ > no_truncation_threshold_spec(width, amount)@ <==> is_cut(x@, width, amount as nat),
{
    threshold_is_exact(width, amount, x);
    uint_max_is_all_ones(width);
}

/// Any number above one that is cut is cut as well.
proof fn lemma_cut_above(n: nat, m: nat, width: u16, amount: nat)
    requires
        n <= m,
        is_cut(n, width, amount),
    ensures
        is_cut(m, width, amount),
{
    let p = pow2(amount);
    assert(n * p <= m * p) by (nonlinear_arith)
        requires
            n <= m,
    ;
}

proof fn lemma_guard(fact: PathFactView, var: Var, width: u16, amount: u8)
    requires
        is_width(width),
    ensures
        guard_of(fact, var) is Some <==> is_guard(fact, var),
        is_guard(fact, var) ==> (guard_of(fact, var)->0@ > no_truncation_threshold_spec(
            width,
            amount,
        )@ <==> lets_through(fact, width, amount as nat)),
{
    if is_guard(fact, var) {
        let bound = fact.bound->0;
        let amount_n = amount as nat;
        if bound@ == 0 {
            lemma_u256_injective(bound, U256::zero_spec());
        }
        if fact.op is Lt && bound@ > 0 {
            lemma_u256_view(bound);
            lemma_u256_of((bound@ - 1) as nat);
        }
        let guard = guard_of(fact, var)->0;
        lemma_cut(width, amount, guard);
        if fact.op is Lt && bound@ == 0 {
            assert(!is_cut(0, width, amount_n)) by {
                vstd::arithmetic::power2::lemma_pow2_pos(width as nat);
            }
        } else {
            assert(fact.op.holds(guard@, bound@));
        }
        if lets_through(fact, width, amount_n) {
            let n = choose|n: nat| #[trigger]
                fact.op.holds(n, bound@) && is_cut(n, width, amount_n);
            assert(n <= guard@);
            lemma_cut_above(n, guard@, width, amount_n);
        }
    }
}

proof fn lemma_guards(facts: Seq<PathFactView>, var: Var, n: nat, width: u16, amount: u8)
    requires
        is_width(width),
        n <= facts.len(),
    ensures
        ({
            let least = least_guard(facts, var, n);
            let threshold = no_truncation_threshold_spec(width, amount);
            &&& least is Some <==> exists|i: int| 0 <= i < n && is_guard(#[trigger] facts[i], var)
            &&& least is Some ==> (least->0@ > threshold@ <==> forall|i: int|
                0 <= i < n && is_guard(#[trigger] facts[i], var) ==> lets_through(
                    facts[i],
                    width,
                    amount as nat,
                ))
        }),
    decreases n,
{
    if n > 0 {
        lemma_guards(facts, var, (n - 1) as nat, width, amount);
        lemma_guard(facts[n - 1], var, width, amount);
        let before = least_guard(facts, var, (n - 1) as nat);
        let least = least_guard(facts, var, n);
        if before is Some {
            let i = choose|i: int| 0 <= i < n - 1 && is_guard(#[trigger] facts[i], var);
            assert(is_guard(facts[i], var));
        }
        if is_guard(facts[n - 1], var) {
            assert(0 <= n - 1 < n && is_guard(facts[n - 1], var));
        }
    }
}

/// The guard that a shift is held against is too weak exactly where the facts on the path check the
/// shifted variable, by `<`, `<=` or `==`, and every one of them lets numbers through that the
/// shift cuts.
pub proof fn weak_guards_are_fake_checks(e: Exp, st: AbstractStateView, width: u16, amount: u8)
    requires
        is_width(width),
    ensures
        ({
            let bound = strongest_upper_bound_spec(e, st);
            let weak = bound is Some && bound->0@ > no_truncation_threshold_spec(width, amount)@;
            weak <==> is_fakely_checked(e, st.path_facts, width, amount as nat)
        }),
{
    let facts = st.path_facts;
    if let Some(var) = extract_var_spec(e) {
        variables_are_found_through_casts(e, var);
        lemma_guards(facts, var, facts.len(), width, amount);
        if is_fakely_checked(e, facts, width, amount as nat) {
            let other = choose|other: Var| #[trigger]
                reads(e, other) && is_fake_check(facts, other, width, amount as nat);
            variables_are_found_through_casts(e, other);
        }
        if is_fake_check(facts, var, width, amount as nat) {
            assert(reads(e, var));
        }
    } else if is_fakely_checked(e, facts, width, amount as nat) {
        let other = choose|other: Var| #[trigger]
            reads(e, other) && is_fake_check(facts, other, width, amount as nat);
        variables_are_found_through_casts(e, other);
    }
}

/// The kind of risk that a left shift carries, told by the facts on the path.
pub open spec fn cut_kind(
    e: Exp,
    facts: Seq<PathFactView>,
    width: u16,
    amount: nat,
) -> RiskKind {
    if is_fakely_checked(e, facts, width, amount) {
        RiskKind::FakeCheckedShift
    } else {
        RiskKind::ReachableShiftTruncation
    }
}

/// A left shift whose operand may lose bits carries a risk: that of a check that is fake where the
/// facts on the path check the shifted variable without keeping out the numbers that are cut, that
/// of a truncation where there is no check at all or one that keeps them out.
pub proof fn shifts_that_may_cut_carry_a_risk(
    c: Ctx,
    exp: Exp,
    lhs_exp: Exp,
    lhs: ValueStateView,
    rhs_exp: Exp,
    rhs: ValueStateView,
    st: AbstractStateView,
    width: u16,
    y: U256,
)
    requires
        coherent(lhs.risky_origins),
        coherent(rhs.risky_origins),
        is_width(width),
        type_width_spec(exp.ty) == Some(width),
        rhs.exact_value_spec() == Some(y),
        y@ < width,
        may_be_cut(lhs, width, y@),
    ensures
        carries(
            binop_value_spec(c, exp, lhs_exp, lhs, BinOp::Shl, rhs_exp, rhs, st).risky_origins,
            origin_key_spec(cut_kind(lhs_exp, st.path_facts, width, y@), exp.loc),
        ),
{
    let amount = y@ as u8;
    let kind = cut_kind(lhs_exp, st.path_facts, width, y@);
    assert(shift_amount_spec(rhs) == Some(amount) && amount as nat == y@);
    if let Some(upper) = lhs.interval.upper {
        lemma_cut(width, amount, upper);
    }
    weak_guards_are_fake_checks(lhs_exp, st, width, amount);
    lemma_truncating_raw(c, exp, lhs_exp, lhs, rhs_exp, rhs, st, width, amount);
    lemma_push_new(
        merged_spec(c, exp, lhs, rhs).risky_origins,
        truncation_origin_spec(c, exp, lhs_exp, lhs, st, width, amount),
    );
    lemma_raw_result(c, exp, lhs_exp, lhs, BinOp::Shl, rhs_exp, rhs, st);
    let raw = raw_result_spec(c, exp, lhs_exp, lhs, BinOp::Shl, rhs_exp, rhs, st);
    lemma_without_suspicious(raw.risky_origins, kind, exp.loc);
    reveal(binop_value_spec);
}

/// A variable that a fact on the path bounds from above, strictly or not, but not so tightly that
/// the shift keeps all bits, is shifted under a fake check, as long as no other fact bounds it more
/// tightly.
pub proof fn loose_bounds_make_fake_checks(
    c: Ctx,
    exp: Exp,
    lhs_exp: Exp,
    lhs: ValueStateView,
    rhs_exp: Exp,
    rhs: ValueStateView,
    st: AbstractStateView,
    width: u16,
    y: U256,
    var: Var,
    i: int,
    n: nat,
)
    requires
        coherent(lhs.risky_origins),
        coherent(rhs.risky_origins),
        is_width(width),
        type_width_spec(exp.ty) == Some(width),
        rhs.exact_value_spec() == Some(y),
        y@ < width,
        may_be_cut(lhs, width, y@),
        reads(lhs_exp, var),
        0 <= i < st.path_facts.len(),
        st.path_facts[i].var == Some(var),
        st.path_facts[i].bound is Some,
        st.path_facts[i].op is Lt && st.path_facts[i].bound->0@ == n + 1
            || st.path_facts[i].op is Le && st.path_facts[i].bound->0@ == n,
        n * pow2(y@) >= pow2(width as nat),
        forall|j: int|
            0 <= j < st.path_facts.len() && is_guard(#[trigger] st.path_facts[j], var)
                ==> st.path_facts[j].op.holds(n, st.path_facts[j].bound->0@),
    ensures
        carries(
            binop_value_spec(c, exp, lhs_exp, lhs, BinOp::Shl, rhs_exp, rhs, st).risky_origins,
            origin_key_spec(RiskKind::FakeCheckedShift, exp.loc),
        ),
{
    let facts = st.path_facts;
    assert(is_guard(facts[i], var));
    assert forall|j: int| 0 <= j < facts.len() && is_guard(#[trigger] facts[j], var) implies lets_through(
        facts[j],
        width,
        y@,
    ) by {
        assert(facts[j].op.holds(n, facts[j].bound->0@) && is_cut(n, width, y@));
    }
    assert(reads(lhs_exp, var) && is_fake_check(facts, var, width, y@));
    shifts_that_may_cut_carry_a_risk(c, exp, lhs_exp, lhs, rhs_exp, rhs, st, width, y);
}

/// The risk of a left shift that neither operand carried before tells what the shift is about: the
/// largest number that keeps all its bits, the width, the amount, and whether there was a check.
pub proof fn risks_of_shifts_say_what_is_cut(
    c: Ctx,
    exp: Exp,
    lhs_exp: Exp,
    lhs: ValueStateView,
    st: AbstractStateView,
    width: u16,
    amount: u8,
    x: U256,
)
    requires
        is_width(width),
    ensures
        ({
            let risk = truncation_origin_spec(c, exp, lhs_exp, lhs, st, width, amount);
            &&& risk.kind == cut_kind(lhs_exp, st.path_facts, width, amount as nat)
            &&& risk.key == origin_key_spec(risk.kind, exp.loc)
            &&& risk.loc == exp.loc
            &&& risk.guard_mismatch <==> risk.kind is FakeCheckedShift
            &&& risk.width == Some(width)
            &&& risk.shift_amount == Some(amount)
            &&& risk.threshold is Some
            &&& x@ <= risk.threshold->0@ <==> !is_cut(x@, width, amount as nat)
            &&& risk.obligation_kind is Absent
            &&& risk.proof_mode is Abstract
            &&& risk.rounding_mode is None
            &&& risk.source_name == describe_spec(c.function, lhs_exp)
            &&& risk.expr_text == describe_spec(c.function, exp)
            &&& risk.helper_name == Some(c.function.key.name@)
            &&& !risk.helper_like
        }),
{
    reveal(make_origin_spec);
    weak_guards_are_fake_checks(lhs_exp, st, width, amount);
    lemma_cut(width, amount, x);
}

/// The rule by itself: a shift is reported exactly where its operand may be cut, and as a fake
/// check exactly where the guard it is given lets a number through that is.
pub proof fn shift_rule_reports_what_may_be_cut(
    ctx: RuleCtxView,
    lhs: ValueStateView,
    text: Seq<char>,
    width: u16,
    amount: u8,
    guard: Option<U256>,
)
    requires
        is_width(width),
    ensures
        ({
            let risk = check_shl_spec(ctx, lhs, text, width, amount, guard);
            let weak = guard is Some && is_cut(guard->0@, width, amount as nat);
            &&& risk is Some <==> may_be_cut(lhs, width, amount as nat)
            &&& risk is Some ==> {
                &&& risk->0.kind is FakeCheckedShift <==> weak
                &&& risk->0.kind is ReachableShiftTruncation <==> !weak
                &&& risk->0.guard_mismatch <==> weak
                &&& risk->0.loc == ctx.exp_loc
                &&& risk->0.key == origin_key_spec(risk->0.kind, ctx.exp_loc)
                &&& risk->0.width == Some(width)
                &&& risk->0.shift_amount == Some(amount)
                &&& risk->0.expr_text == text
                &&& risk->0.source_name == text
                &&& risk->0.helper_name == Some(ctx.fn_name)
                &&& risk->0.path_facts == ctx.path_facts
                &&& risk->0.obligation_kind is Absent
            }
        }),
{
    if let Some(upper) = lhs.interval.upper {
        lemma_cut(width, amount, upper);
    }
    if let Some(bound) = guard {
        lemma_cut(width, amount, bound);
    }
}

} // verus!
