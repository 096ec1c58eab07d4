//! Risks: which operations give rise to them, and how values carry them.

use crate::ast::{BinOp, BuiltinTypeName, Exp, Loc, ModuleCall, Type, UnannotatedExp};
use crate::domain::denominator::{all_positive, denominator_factors_spec};
use crate::domain::risk::{
    key_is_new, origin_key_spec, push_all_new, push_new, RiskKind, RiskOriginView,
};
use crate::domain::state::AbstractStateView;
use crate::domain::value::{exact_value_is_unique, ValueStateView};
use crate::domain::widths::{builtin_width_spec, is_width, type_width_spec, uint_max_spec};
use crate::rules::fake_checked_shift::guard_is_weaker_spec;
use crate::rules::lossy_right_shift::{is_lossy, unreported_right_shifts_are_exact};
use crate::rules::narrow_cast::cast_condition_spec;
use crate::rules::shift_truncation::{no_truncation_threshold_spec, threshold_is_exact};
use crate::summaries::ReturnSummaryView;
use crate::text::{decimal, hex};
use crate::transfer::binop::{
    binop_value_spec, dynamic_origin_spec, invalid_count_origin_spec, lossy_origin_spec,
    merged_spec, raw_result_spec, shift_amount_spec, strongest_upper_bound_spec,
    suspicious_origin_spec, truncation_origin_spec, without_suspicious,
};
use crate::transfer::call::{
    call_denominator_spec, call_values_spec, default_returns_spec, discharged_spec,
    mapped_origin_spec, passed_on_spec, return_value_spec, return_values_spec,
    with_callee_origins_spec,
};
use crate::transfer::callgraph::resolve_spec;
use crate::transfer::context::Ctx;
use crate::transfer::describe::describe_spec;
use crate::transfer::emit::{make_origin_spec, weak_denominator_spec};
use crate::transfer::eval::{
    cast_value_spec, eval_each_spec, eval_spec, first_or_top_spec, narrowed_spec,
};
use crate::transfer::semantics::{fits, result_of};
use crate::u256::U256;
use vstd::arithmetic::power2::pow2;
use vstd::prelude::*;

verus! {

/// Different kinds of risk have different rules.
proof fn lemma_rules_differ(a: RiskKind, b: RiskKind)
    requires
        a.rule_id_spec() == b.rule_id_spec(),
    ensures
        a == b,
{
    reveal_strlit("security/reachable-shift-truncation");
    reveal_strlit("security/fake-checked-shift");
    reveal_strlit("security/reachable-narrow-cast");
    reveal_strlit("security/invalid-shift-count");
    reveal_strlit("security/reachable-lossy-right-shift");
    reveal_strlit("security/dynamic-u256-shift");
    reveal_strlit("security/suspicious-bitwise-arithmetic");
    reveal_strlit("security/reachable-weak-denominator");
    reveal_strlit("security/reachable-rounding-mismatch");
    let r = a.rule_id_spec();
    let s = b.rule_id_spec();
    assert(r.len() == s.len() && r[9] == s[9] && r[19] == s[19]);
}

/// No rule has a colon in its name.
proof fn lemma_rule_without_colon(kind: RiskKind)
    ensures
        forall|i: int| 0 <= i < kind.rule_id_spec().len() ==> #[trigger] kind.rule_id_spec()[i] != ':',
        ":"@ == seq![':'],
{
    reveal_strlit(":");
    assert(":"@ =~= seq![':']);
    match kind {
        RiskKind::ReachableShiftTruncation => {
            reveal_strlit("security/reachable-shift-truncation");
        },
        RiskKind::FakeCheckedShift => {
            reveal_strlit("security/fake-checked-shift");
        },
        RiskKind::ReachableNarrowCast => {
            reveal_strlit("security/reachable-narrow-cast");
        },
        RiskKind::InvalidShiftCount => {
            reveal_strlit("security/invalid-shift-count");
        },
        RiskKind::ReachableLossyRightShift => {
            reveal_strlit("security/reachable-lossy-right-shift");
        },
        RiskKind::DynamicU256Shift => {
            reveal_strlit("security/dynamic-u256-shift");
        },
        RiskKind::SuspiciousBitwiseArithmetic => {
            reveal_strlit("security/suspicious-bitwise-arithmetic");
        },
        RiskKind::ReachableWeakDenominator => {
            reveal_strlit("security/reachable-weak-denominator");
        },
        RiskKind::ReachableRoundingMismatch => {
            reveal_strlit("security/reachable-rounding-mismatch");
        },
    }
}

/// A key: the rule of a kind, and what tells its risks apart.
pub open spec fn key_with(kind: RiskKind, tail: Seq<char>) -> Seq<char> {
    kind.rule_id_spec() + ":"@ + tail
}

/// Whether a key is one of a kind.
#[verifier::opaque]
pub open spec fn is_key_of(key: Seq<char>, kind: RiskKind) -> bool {
    exists|tail: Seq<char>| key == #[trigger] key_with(kind, tail)
}

/// A key is one of at most one kind.
pub proof fn lemma_one_kind(key: Seq<char>, a: RiskKind, b: RiskKind)
    requires
        is_key_of(key, a),
        is_key_of(key, b),
    ensures
        a == b,
{
    reveal(is_key_of);
    lemma_rule_without_colon(a);
    lemma_rule_without_colon(b);
    let s = choose|s: Seq<char>| key == #[trigger] key_with(a, s);
    let t = choose|t: Seq<char>| key == #[trigger] key_with(b, t);
    let r = a.rule_id_spec();
    let q = b.rule_id_spec();
    assert(key_with(a, s)[r.len() as int] == ':');
    assert(key_with(b, t)[q.len() as int] == ':');
    if r.len() < q.len() {
        assert(key_with(b, t)[r.len() as int] == q[r.len() as int]);
    } else if q.len() < r.len() {
        assert(key_with(a, s)[q.len() as int] == r[q.len() as int]);
    } else {
        assert forall|i: int| 0 <= i < r.len() implies r[i] == q[i] by {
            assert(key_with(a, s)[i] == r[i] && key_with(b, t)[i] == q[i]);
        }
        assert(r =~= q);
        lemma_rules_differ(a, b);
    }
}

pub proof fn lemma_origin_key(kind: RiskKind, at: Loc)
    ensures
        is_key_of(origin_key_spec(kind, at), kind),
{
    reveal(is_key_of);
    let tail = hex(at.file_hash@, 64) + ":"@ + decimal(at.start as nat);
    assert(origin_key_spec(kind, at) =~= key_with(kind, tail));
}

/// The key of a risk tells its kind.
pub proof fn keys_tell_the_kind(a: RiskKind, at: Loc, b: RiskKind, other: Loc)
    requires
        origin_key_spec(a, at) == origin_key_spec(b, other),
    ensures
        a == b,
{
    lemma_origin_key(a, at);
    lemma_origin_key(b, other);
    lemma_one_kind(origin_key_spec(a, at), a, b);
}

/// Whether the keys of risks are those of their kinds and places.
pub open spec fn coherent(origins: Seq<RiskOriginView>) -> bool {
    forall|i: int|
        0 <= i < origins.len() ==> (#[trigger] origins[i]).key == origin_key_spec(
            origins[i].kind,
            origins[i].loc,
        )
}

pub open spec fn coherent_values(values: Seq<ValueStateView>) -> bool {
    forall|i: int| 0 <= i < values.len() ==> coherent((#[trigger] values[i]).risky_origins)
}

/// Whether the risks of every variable are coherent.
pub open spec fn coherent_state(st: AbstractStateView) -> bool {
    forall|k: usize| #[trigger] st.locals.contains_key(k) ==> coherent(st.locals[k].risky_origins)
}

/// Whether the risks that functions are known to return are coherent.
pub open spec fn coherent_summaries(summaries: Seq<Seq<ReturnSummaryView>>) -> bool {
    forall|f: int, i: int|
        #![trigger summaries[f][i]]
        0 <= f < summaries.len() && 0 <= i < summaries[f].len() ==> coherent(
            summaries[f][i].risky_origins,
        )
}

/// Whether a risk with this key is among the risks.
pub open spec fn carries(origins: Seq<RiskOriginView>, key: Seq<char>) -> bool {
    exists|i: int| 0 <= i < origins.len() && (#[trigger] origins[i]).key == key
}

/// One more risk changes nothing about those that are carried, and is carried itself.
pub proof fn lemma_push_new(origins: Seq<RiskOriginView>, origin: RiskOriginView)
    ensures
        carries(push_new(origins, origin), origin.key),
        forall|key: Seq<char>| #[trigger]
            carries(origins, key) ==> carries(push_new(origins, origin), key),
        coherent(origins) && origin.key == origin_key_spec(origin.kind, origin.loc) ==> coherent(
            push_new(origins, origin),
        ),
{
    let r = push_new(origins, origin);
    if key_is_new(origins, origin.key) {
        assert(r[origins.len() as int].key == origin.key);
    } else {
        let i = choose|i: int| 0 <= i < origins.len() && (#[trigger] origins[i]).key == origin.key;
        assert(r[i].key == origin.key);
    }
    assert forall|key: Seq<char>| #[trigger] carries(origins, key) implies carries(r, key) by {
        let i = choose|i: int| 0 <= i < origins.len() && (#[trigger] origins[i]).key == key;
        assert(r[i].key == key);
    }
}

proof fn lemma_push_all_new(origins: Seq<RiskOriginView>, extra: Seq<RiskOriginView>, n: nat)
    requires
        n <= extra.len(),
    ensures
        forall|key: Seq<char>| #[trigger]
            carries(origins, key) ==> carries(push_all_new(origins, extra, n), key),
        forall|i: int|
            0 <= i < n ==> carries(push_all_new(origins, extra, n), (#[trigger] extra[i]).key),
        coherent(origins) && coherent(extra) ==> coherent(push_all_new(origins, extra, n)),
    decreases n,
{
    if n > 0 {
        lemma_push_all_new(origins, extra, (n - 1) as nat);
        lemma_push_new(push_all_new(origins, extra, (n - 1) as nat), extra[n - 1]);
        assert forall|i: int| 0 <= i < n implies carries(
            push_all_new(origins, extra, n),
            (#[trigger] extra[i]).key,
        ) by {
            if i < n - 1 {
                assert(carries(push_all_new(origins, extra, (n - 1) as nat), extra[i].key));
            }
        }
    }
}

/// A join carries the risks of both sides.
pub proof fn joins_carry_both_risks(a: ValueStateView, b: ValueStateView, key: Seq<char>)
    requires
        carries(a.risky_origins, key) || carries(b.risky_origins, key),
    ensures
        carries(a.join_spec(b).risky_origins, key),
{
    lemma_push_all_new(a.risky_origins, b.risky_origins, b.risky_origins.len());
    if carries(b.risky_origins, key) {
        let i = choose|i: int|
            0 <= i < b.risky_origins.len() && (#[trigger] b.risky_origins[i]).key == key;
        assert(carries(
            push_all_new(a.risky_origins, b.risky_origins, b.risky_origins.len()),
            b.risky_origins[i].key,
        ));
    }
}

pub proof fn lemma_join_coherent(a: ValueStateView, b: ValueStateView)
    requires
        coherent(a.risky_origins),
        coherent(b.risky_origins),
    ensures
        coherent(a.join_spec(b).risky_origins),
{
    lemma_push_all_new(a.risky_origins, b.risky_origins, b.risky_origins.len());
}

/// Dropping the risks of bitwise arithmetic leaves the others.
pub proof fn lemma_without_suspicious(origins: Seq<RiskOriginView>, kind: RiskKind, at: Loc)
    requires
        coherent(origins),
    ensures
        coherent(without_suspicious(origins)),
        kind !is SuspiciousBitwiseArithmetic && carries(origins, origin_key_spec(kind, at))
            ==> carries(without_suspicious(origins), origin_key_spec(kind, at)),
{
    let keep = |o: RiskOriginView| o.kind !is SuspiciousBitwiseArithmetic;
    let kept = origins.filter(keep);
    assert forall|i: int| 0 <= i < kept.len() implies (#[trigger] kept[i]).key == origin_key_spec(
        kept[i].kind,
        kept[i].loc,
    ) by {
        origins.lemma_filter_contains_rev(keep, kept[i]);
    }
    let key = origin_key_spec(kind, at);
    if kind !is SuspiciousBitwiseArithmetic && carries(origins, key) {
        let i = choose|i: int| 0 <= i < origins.len() && (#[trigger] origins[i]).key == key;
        keys_tell_the_kind(kind, at, origins[i].kind, origins[i].loc);
        origins.lemma_filter_contains(keep, i);
        let j = choose|j: int| 0 <= j < kept.len() && kept[j] == origins[i];
        assert(kept[j].key == key);
    }
}

/// The risks of the operands, and none that is not coherent, are among those of a result before
/// any are dropped.
pub proof fn lemma_raw_result(
    c: Ctx,
    exp: Exp,
    lhs_exp: Exp,
    lhs: ValueStateView,
    op: BinOp,
    rhs_exp: Exp,
    rhs: ValueStateView,
    st: AbstractStateView,
)
    requires
        coherent(lhs.risky_origins),
        coherent(rhs.risky_origins),
    ensures
        coherent(raw_result_spec(c, exp, lhs_exp, lhs, op, rhs_exp, rhs, st).risky_origins),
        forall|key: Seq<char>|
            #![trigger carries(lhs.risky_origins, key)]
            #![trigger carries(rhs.risky_origins, key)]
            carries(lhs.risky_origins, key) || carries(rhs.risky_origins, key) ==> carries(
                raw_result_spec(c, exp, lhs_exp, lhs, op, rhs_exp, rhs, st).risky_origins,
                key,
            ),
{
    reveal(raw_result_spec);
    reveal(merged_spec);
    reveal(make_origin_spec);
    reveal(weak_denominator_spec);
    let merged = merged_spec(c, exp, lhs, rhs);
    let raw = raw_result_spec(c, exp, lhs_exp, lhs, op, rhs_exp, rhs, st);
    assert(merged.risky_origins == lhs.join_spec(rhs).risky_origins);
    lemma_join_coherent(lhs, rhs);
    assert forall|key: Seq<char>|
        #![trigger carries(lhs.risky_origins, key)]
        #![trigger carries(rhs.risky_origins, key)]
        carries(lhs.risky_origins, key) || carries(rhs.risky_origins, key) implies carries(
        merged.risky_origins,
        key,
    ) by {
        joins_carry_both_risks(lhs, rhs, key);
    }
    let base = merged.risky_origins;
    if let Some(origin) = weak_denominator_spec(c, exp, lhs, rhs, rhs_exp, st) {
        lemma_push_new(base, origin);
    }
    if let Some(width) = type_width_spec(exp.ty) {
        lemma_push_new(base, suspicious_origin_spec(c, exp, lhs_exp, lhs, st, width));
        lemma_push_new(base, dynamic_origin_spec(c, exp, rhs_exp, rhs, st));
        if let Some(amount) = shift_amount_spec(rhs) {
            lemma_push_new(
                base,
                invalid_count_origin_spec(c, exp, rhs_exp, rhs, st, width, amount),
            );
            lemma_push_new(
                base,
                truncation_origin_spec(c, exp, lhs_exp, lhs, st, width, amount),
            );
            lemma_push_new(base, lossy_origin_spec(c, exp, lhs_exp, lhs, st, width, amount));
        }
    }
}

/// A result carries the risks of its operands, except those of bitwise arithmetic that it drops.
pub proof fn results_carry_the_risks_of_operands(
    c: Ctx,
    exp: Exp,
    lhs_exp: Exp,
    lhs: ValueStateView,
    op: BinOp,
    rhs_exp: Exp,
    rhs: ValueStateView,
    st: AbstractStateView,
    kind: RiskKind,
    at: Loc,
)
    requires
        coherent(lhs.risky_origins),
        coherent(rhs.risky_origins),
    ensures
        coherent(binop_value_spec(c, exp, lhs_exp, lhs, op, rhs_exp, rhs, st).risky_origins),
        kind !is SuspiciousBitwiseArithmetic && (carries(
            lhs.risky_origins,
            origin_key_spec(kind, at),
        ) || carries(rhs.risky_origins, origin_key_spec(kind, at))) ==> carries(
            binop_value_spec(c, exp, lhs_exp, lhs, op, rhs_exp, rhs, st).risky_origins,
            origin_key_spec(kind, at),
        ),
{
    reveal(binop_value_spec);
    lemma_raw_result(c, exp, lhs_exp, lhs, op, rhs_exp, rhs, st);
    let raw = raw_result_spec(c, exp, lhs_exp, lhs, op, rhs_exp, rhs, st);
    lemma_without_suspicious(raw.risky_origins, kind, at);
}

/// The kind of the risk of a left shift that may lose bits: the guard before it, where there is
/// one, is too weak or not there.
pub open spec fn truncation_kind(
    lhs_exp: Exp,
    st: AbstractStateView,
    width: u16,
    amount: u8,
) -> RiskKind {
    if guard_is_weaker_spec(
        strongest_upper_bound_spec(lhs_exp, st),
        no_truncation_threshold_spec(width, amount),
    ) {
        RiskKind::FakeCheckedShift
    } else {
        RiskKind::ReachableShiftTruncation
    }
}

/// Whether a value carries the risk that a left shift at this place loses bits.
pub open spec fn carries_truncation(origins: Seq<RiskOriginView>, at: Loc) -> bool {
    carries(origins, origin_key_spec(RiskKind::ReachableShiftTruncation, at)) || carries(
        origins,
        origin_key_spec(RiskKind::FakeCheckedShift, at),
    )
}

/// A count below the width that is known is the one that the shift goes by.
proof fn lemma_known_count(rhs: ValueStateView, y: U256, width: u16)
    requires
        is_width(width),
        rhs.valid(),
        rhs.admits(y),
        rhs.exact_value_spec() is Some,
        y@ < width,
    ensures
        shift_amount_spec(rhs) == Some(y@ as u8),
        (y@ as u8) as nat == y@,
        (y@ as u8) < width,
{
    exact_value_is_unique(rhs, y);
}

/// A left shift by a known amount that can lose bits carries the risk; a guard before it that lets
/// such numbers through makes it a fake check.
pub proof fn truncating_shifts_carry_a_risk(
    c: Ctx,
    exp: Exp,
    lhs_exp: Exp,
    lhs: ValueStateView,
    rhs_exp: Exp,
    rhs: ValueStateView,
    st: AbstractStateView,
    x: U256,
    y: U256,
)
    requires
        coherent(lhs.risky_origins),
        coherent(rhs.risky_origins),
        lhs.valid(),
        rhs.valid(),
        lhs.admits(x),
        rhs.admits(y),
        rhs.exact_value_spec() is Some,
        result_of(BinOp::Shl, type_width_spec(exp.ty), x, y) is Some,
        x@ * pow2(y@) > uint_max_spec(type_width_spec(exp.ty)->0)@,
    ensures
        carries(
            binop_value_spec(c, exp, lhs_exp, lhs, BinOp::Shl, rhs_exp, rhs, st).risky_origins,
            origin_key_spec(
                truncation_kind(lhs_exp, st, type_width_spec(exp.ty)->0, y@ as u8),
                exp.loc,
            ),
        ),
{
    let width = type_width_spec(exp.ty)->0;
    let amount = y@ as u8;
    lemma_known_count(rhs, y, width);
    threshold_is_exact(width, amount, x);
    assert(!lhs.interval.at_most_spec(no_truncation_threshold_spec(width, amount)));
    lemma_truncating_raw(c, exp, lhs_exp, lhs, rhs_exp, rhs, st, width, amount);
    lemma_push_new(
        merged_spec(c, exp, lhs, rhs).risky_origins,
        truncation_origin_spec(c, exp, lhs_exp, lhs, st, width, amount),
    );
    lemma_raw_result(c, exp, lhs_exp, lhs, BinOp::Shl, rhs_exp, rhs, st);
    let raw = raw_result_spec(c, exp, lhs_exp, lhs, BinOp::Shl, rhs_exp, rhs, st);
    lemma_without_suspicious(
        raw.risky_origins,
        truncation_kind(lhs_exp, st, width, amount),
        exp.loc,
    );
    reveal(binop_value_spec);
}

pub proof fn lemma_truncating_raw(
    c: Ctx,
    exp: Exp,
    lhs_exp: Exp,
    lhs: ValueStateView,
    rhs_exp: Exp,
    rhs: ValueStateView,
    st: AbstractStateView,
    width: u16,
    amount: u8,
)
    requires
        type_width_spec(exp.ty) == Some(width),
        shift_amount_spec(rhs) == Some(amount),
        amount < width,
        !lhs.interval.at_most_spec(no_truncation_threshold_spec(width, amount)),
    ensures
        raw_result_spec(c, exp, lhs_exp, lhs, BinOp::Shl, rhs_exp, rhs, st).risky_origins
            == push_new(
            merged_spec(c, exp, lhs, rhs).risky_origins,
            truncation_origin_spec(c, exp, lhs_exp, lhs, st, width, amount),
        ),
        truncation_origin_spec(c, exp, lhs_exp, lhs, st, width, amount).key == origin_key_spec(
            truncation_kind(lhs_exp, st, width, amount),
            exp.loc,
        ),
{
    reveal(raw_result_spec);
    reveal(make_origin_spec);
}

proof fn lemma_lossy_raw(
    c: Ctx,
    exp: Exp,
    lhs_exp: Exp,
    lhs: ValueStateView,
    rhs_exp: Exp,
    rhs: ValueStateView,
    st: AbstractStateView,
    width: u16,
    amount: u8,
)
    requires
        type_width_spec(exp.ty) == Some(width),
        shift_amount_spec(rhs) == Some(amount),
        amount < width,
        is_lossy(lhs, width, amount),
    ensures
        raw_result_spec(c, exp, lhs_exp, lhs, BinOp::Shr, rhs_exp, rhs, st).risky_origins
            == push_new(
            merged_spec(c, exp, lhs, rhs).risky_origins,
            lossy_origin_spec(c, exp, lhs_exp, lhs, st, width, amount),
        ),
        lossy_origin_spec(c, exp, lhs_exp, lhs, st, width, amount).key == origin_key_spec(
            RiskKind::ReachableLossyRightShift,
            exp.loc,
        ),
{
    reveal(raw_result_spec);
    reveal(make_origin_spec);
}

/// A right shift by a known amount that can lose bits carries the risk.
pub proof fn lossy_shifts_carry_a_risk(
    c: Ctx,
    exp: Exp,
    lhs_exp: Exp,
    lhs: ValueStateView,
    rhs_exp: Exp,
    rhs: ValueStateView,
    st: AbstractStateView,
    x: U256,
    y: U256,
)
    requires
        coherent(lhs.risky_origins),
        coherent(rhs.risky_origins),
        lhs.valid(),
        rhs.valid(),
        lhs.admits(x),
        rhs.admits(y),
        rhs.exact_value_spec() is Some,
        result_of(BinOp::Shr, type_width_spec(exp.ty), x, y) is Some,
        x@ % pow2(y@) != 0,
    ensures
        carries(
            binop_value_spec(c, exp, lhs_exp, lhs, BinOp::Shr, rhs_exp, rhs, st).risky_origins,
            origin_key_spec(RiskKind::ReachableLossyRightShift, exp.loc),
        ),
{
    let width = type_width_spec(exp.ty)->0;
    let amount = y@ as u8;
    lemma_known_count(rhs, y, width);
    if !is_lossy(lhs, width, amount) {
        unreported_right_shifts_are_exact(lhs, width, amount, x);
    }
    lemma_lossy_raw(c, exp, lhs_exp, lhs, rhs_exp, rhs, st, width, amount);
    lemma_push_new(
        merged_spec(c, exp, lhs, rhs).risky_origins,
        lossy_origin_spec(c, exp, lhs_exp, lhs, st, width, amount),
    );
    lemma_raw_result(c, exp, lhs_exp, lhs, BinOp::Shr, rhs_exp, rhs, st);
    let raw = raw_result_spec(c, exp, lhs_exp, lhs, BinOp::Shr, rhs_exp, rhs, st);
    lemma_without_suspicious(
        raw.risky_origins,
        RiskKind::ReachableLossyRightShift,
        exp.loc,
    );
    reveal(binop_value_spec);
}

/// A shift by a known amount of at least the width carries the risk of an invalid count, and a
/// shift of 256 bits by an amount that is not known that of a dynamic shift.
pub proof fn unchecked_counts_carry_a_risk(
    c: Ctx,
    exp: Exp,
    lhs_exp: Exp,
    lhs: ValueStateView,
    op: BinOp,
    rhs_exp: Exp,
    rhs: ValueStateView,
    st: AbstractStateView,
)
    requires
        coherent(lhs.risky_origins),
        coherent(rhs.risky_origins),
        op is Shl || op is Shr,
        type_width_spec(exp.ty) is Some,
    ensures
        shift_amount_spec(rhs) is Some && shift_amount_spec(rhs)->0 >= type_width_spec(exp.ty)->0
            ==> carries(
            binop_value_spec(c, exp, lhs_exp, lhs, op, rhs_exp, rhs, st).risky_origins,
            origin_key_spec(RiskKind::InvalidShiftCount, exp.loc),
        ),
        shift_amount_spec(rhs) is None && type_width_spec(exp.ty) == Some(256u16) ==> carries(
            binop_value_spec(c, exp, lhs_exp, lhs, op, rhs_exp, rhs, st).risky_origins,
            origin_key_spec(RiskKind::DynamicU256Shift, exp.loc),
        ),
{
    reveal(binop_value_spec);
    reveal(raw_result_spec);
    reveal(make_origin_spec);
    lemma_raw_result(c, exp, lhs_exp, lhs, op, rhs_exp, rhs, st);
    let raw = raw_result_spec(c, exp, lhs_exp, lhs, op, rhs_exp, rhs, st);
    let base = merged_spec(c, exp, lhs, rhs).risky_origins;
    let width = type_width_spec(exp.ty)->0;
    lemma_push_new(base, dynamic_origin_spec(c, exp, rhs_exp, rhs, st));
    if let Some(amount) = shift_amount_spec(rhs) {
        lemma_push_new(base, invalid_count_origin_spec(c, exp, rhs_exp, rhs, st, width, amount));
    }
    lemma_without_suspicious(raw.risky_origins, RiskKind::InvalidShiftCount, exp.loc);
    lemma_without_suspicious(raw.risky_origins, RiskKind::DynamicU256Shift, exp.loc);
}

/// A division by a value that can be zero carries the risk of a weak denominator, unless each factor
/// of the denominator is known to be above zero.
pub proof fn possible_zero_divisors_carry_a_risk(
    c: Ctx,
    exp: Exp,
    lhs_exp: Exp,
    lhs: ValueStateView,
    rhs_exp: Exp,
    rhs: ValueStateView,
    st: AbstractStateView,
)
    requires
        coherent(lhs.risky_origins),
        coherent(rhs.risky_origins),
        rhs.interval.contains(0),
        !all_positive(
            denominator_factors_spec(
                rhs,
                describe_spec(c.function, rhs_exp),
                c.function.key.name@,
                rhs_exp.loc,
            ),
        ),
    ensures
        carries(
            binop_value_spec(c, exp, lhs_exp, lhs, BinOp::Div, rhs_exp, rhs, st).risky_origins,
            origin_key_spec(RiskKind::ReachableWeakDenominator, exp.loc),
        ),
{
    let origin = weak_denominator_spec(c, exp, lhs, rhs, rhs_exp, st);
    assert(origin is Some && origin->0.key == origin_key_spec(
        RiskKind::ReachableWeakDenominator,
        exp.loc,
    )) by {
        reveal(weak_denominator_spec);
    }
    let raw = raw_result_spec(c, exp, lhs_exp, lhs, BinOp::Div, rhs_exp, rhs, st);
    assert(raw.risky_origins == push_new(
        merged_spec(c, exp, lhs, rhs).risky_origins,
        origin->0,
    )) by {
        reveal(raw_result_spec);
    }
    lemma_push_new(merged_spec(c, exp, lhs, rhs).risky_origins, origin->0);
    lemma_raw_result(c, exp, lhs_exp, lhs, BinOp::Div, rhs_exp, rhs, st);
    lemma_without_suspicious(
        raw.risky_origins,
        RiskKind::ReachableWeakDenominator,
        exp.loc,
    );
    reveal(binop_value_spec);
}

/// A cast of a value that can be too large carries the risk of a narrowing cast; the value keeps
/// the risks that it had, except those of bitwise arithmetic.
pub proof fn narrowing_casts_carry_a_risk(
    c: Ctx,
    exp: Exp,
    inner: Exp,
    value: ValueStateView,
    builtin: BuiltinTypeName,
    st: AbstractStateView,
    x: U256,
    kind: RiskKind,
    at: Loc,
)
    requires
        coherent(value.risky_origins),
        value.admits(x),
    ensures
        coherent(cast_value_spec(c, exp, inner, value, builtin, st).risky_origins),
        builtin_width_spec(builtin) is Some && !fits(builtin_width_spec(builtin)->0, x) ==> carries(
            cast_value_spec(c, exp, inner, value, builtin, st).risky_origins,
            origin_key_spec(RiskKind::ReachableNarrowCast, exp.loc),
        ),
        kind !is SuspiciousBitwiseArithmetic && carries(
            value.risky_origins,
            origin_key_spec(kind, at),
        ) ==> carries(
            cast_value_spec(c, exp, inner, value, builtin, st).risky_origins,
            origin_key_spec(kind, at),
        ),
{
    lemma_cast(c, exp, inner, value, builtin, st, kind, at);
    lemma_cast(
        c,
        exp,
        inner,
        value,
        builtin,
        st,
        RiskKind::ReachableNarrowCast,
        exp.loc,
    );
}

pub proof fn lemma_cast(
    c: Ctx,
    exp: Exp,
    inner: Exp,
    value: ValueStateView,
    builtin: BuiltinTypeName,
    st: AbstractStateView,
    kind: RiskKind,
    at: Loc,
)
    requires
        coherent(value.risky_origins),
    ensures
        coherent(cast_value_spec(c, exp, inner, value, builtin, st).risky_origins),
        builtin_width_spec(builtin) is Some && !value.interval.at_most_spec(
            uint_max_spec(builtin_width_spec(builtin)->0),
        ) && kind is ReachableNarrowCast && at == exp.loc ==> carries(
            cast_value_spec(c, exp, inner, value, builtin, st).risky_origins,
            origin_key_spec(kind, at),
        ),
        kind !is SuspiciousBitwiseArithmetic && carries(
            value.risky_origins,
            origin_key_spec(kind, at),
        ) ==> carries(
            cast_value_spec(c, exp, inner, value, builtin, st).risky_origins,
            origin_key_spec(kind, at),
        ),
{
    reveal(cast_value_spec);
    reveal(make_origin_spec);
    match builtin_width_spec(builtin) {
        Some(width) => {
            let max = uint_max_spec(width);
            let origin = make_origin_spec(
                c,
                RiskKind::ReachableNarrowCast,
                exp,
                value,
                inner,
                st,
                width,
                None,
                Some(max),
                cast_condition_spec(
                    describe_spec(c.function, inner),
                    max,
                ),
                "Reachable narrowing cast on value-bearing path"@,
                false,
                None,
            );
            lemma_push_new(value.risky_origins, origin);
            let narrowed = narrowed_spec(c, exp, inner, value, st, width);
            lemma_without_suspicious(narrowed.risky_origins, kind, at);
        },
        None => lemma_without_suspicious(value.risky_origins, kind, at),
    }
}

/// What the arguments pass on to a returned value.
proof fn lemma_passed_on(
    deps: Set<usize>,
    arguments: Seq<ValueStateView>,
    n: nat,
    origins: Seq<RiskOriginView>,
)
    requires
        n <= arguments.len(),
    ensures
        ({
            let passed = passed_on_spec(deps, arguments, n, origins).1;
            &&& coherent(origins) && coherent_values(arguments) ==> coherent(passed)
            &&& forall|key: Seq<char>| #[trigger] carries(origins, key) ==> carries(passed, key)
            &&& forall|i: int, key: Seq<char>|
                0 <= i < n && deps.contains(i as usize) && #[trigger] carries(
                    arguments[i].risky_origins,
                    key,
                ) ==> carries(passed, key)
        }),
    decreases n,
{
    if n > 0 {
        lemma_passed_on(deps, arguments, (n - 1) as nat, origins);
        let before = passed_on_spec(deps, arguments, (n - 1) as nat, origins).1;
        let more = arguments[n - 1].risky_origins;
        let passed = passed_on_spec(deps, arguments, n, origins).1;
        lemma_push_all_new(before, more, more.len());
        assert forall|i: int, key: Seq<char>|
            0 <= i < n && deps.contains(i as usize) && #[trigger] carries(
                arguments[i].risky_origins,
                key,
            ) implies carries(passed, key) by {
            if i == n - 1 {
                let j = choose|j: int| 0 <= j < more.len() && (#[trigger] more[j]).key == key;
                assert(carries(push_all_new(before, more, more.len()), more[j].key));
            } else {
                assert(carries(before, key));
            }
        }
    }
}

/// What a callee adds to a returned value.
proof fn lemma_with_callee(
    origins: Seq<RiskOriginView>,
    callee: Seq<RiskOriginView>,
    n: nat,
    arguments: Seq<ValueStateView>,
)
    requires
        n <= callee.len(),
    ensures
        ({
            let all = with_callee_origins_spec(origins, callee, n, arguments);
            &&& coherent(origins) && coherent(callee) ==> coherent(all)
            &&& forall|key: Seq<char>| #[trigger] carries(origins, key) ==> carries(all, key)
            &&& forall|i: int|
                0 <= i < n && mapped_origin_spec(#[trigger] callee[i], arguments) is Some
                    ==> carries(all, callee[i].key)
        }),
    decreases n,
{
    if n > 0 {
        lemma_with_callee(origins, callee, (n - 1) as nat, arguments);
        let before = with_callee_origins_spec(origins, callee, (n - 1) as nat, arguments);
        let all = with_callee_origins_spec(origins, callee, n, arguments);
        if let Some(origin) = mapped_origin_spec(callee[n - 1], arguments) {
            lemma_push_new(before, origin);
        }
        assert forall|i: int|
            0 <= i < n && mapped_origin_spec(#[trigger] callee[i], arguments) is Some implies carries(
            all,
            callee[i].key,
        ) by {
            if i < n - 1 {
                assert(carries(before, callee[i].key));
            }
        }
    }
}

proof fn lemma_return_value(
    c: Ctx,
    call: ModuleCall,
    exp: Exp,
    arguments: Seq<ValueStateView>,
    base: ValueStateView,
    summary: ReturnSummaryView,
    st: AbstractStateView,
)
    requires
        base.risky_origins.len() == 0,
    ensures
        ({
            let value = return_value_spec(c, call, exp, arguments, base, summary, st);
            &&& coherent(summary.risky_origins) && coherent_values(arguments) ==> coherent(
                value.risky_origins,
            )
            &&& forall|j: int|
                0 <= j < summary.risky_origins.len() && mapped_origin_spec(
                    #[trigger] summary.risky_origins[j],
                    arguments,
                ) is Some ==> carries(value.risky_origins, summary.risky_origins[j].key)
            &&& forall|i: int, key: Seq<char>|
                0 <= i < arguments.len() && summary.parameter_dependencies.contains(i as usize)
                    && #[trigger] carries(arguments[i].risky_origins, key) ==> carries(
                    value.risky_origins,
                    key,
                )
        }),
{
    reveal(return_value_spec);
    reveal(weak_denominator_spec);
    let passed = passed_on_spec(
        summary.parameter_dependencies,
        arguments,
        arguments.len(),
        base.risky_origins,
    ).1;
    lemma_passed_on(
        summary.parameter_dependencies,
        arguments,
        arguments.len(),
        base.risky_origins,
    );
    lemma_with_callee(
        passed,
        summary.risky_origins,
        summary.risky_origins.len(),
        arguments,
    );
    let origins = with_callee_origins_spec(
        passed,
        summary.risky_origins,
        summary.risky_origins.len(),
        arguments,
    );
    if let Some(origin) = call_denominator_spec(c, call, exp, arguments, st) {
        lemma_push_new(origins, origin);
    }
    let value = return_value_spec(c, call, exp, arguments, base, summary, st);
    assert forall|j: int|
        0 <= j < summary.risky_origins.len() && mapped_origin_spec(
            #[trigger] summary.risky_origins[j],
            arguments,
        ) is Some implies carries(value.risky_origins, summary.risky_origins[j].key) by {
        assert(carries(origins, summary.risky_origins[j].key));
    }
    assert forall|i: int, key: Seq<char>|
        0 <= i < arguments.len() && summary.parameter_dependencies.contains(i as usize)
            && #[trigger] carries(arguments[i].risky_origins, key) implies carries(
        value.risky_origins,
        key,
    ) by {
        assert(carries(passed, key));
        assert(carries(origins, key));
    }
}

pub proof fn lemma_return_values(
    c: Ctx,
    call: ModuleCall,
    exp: Exp,
    arguments: Seq<ValueStateView>,
    summary: Seq<ReturnSummaryView>,
    n: nat,
    st: AbstractStateView,
)
    requires
        n <= summary.len(),
    ensures
        return_values_spec(c, call, exp, arguments, summary, n, st).len() == n,
        forall|i: int|
            0 <= i < n ==> #[trigger] return_values_spec(
                c,
                call,
                exp,
                arguments,
                summary,
                n,
                st,
            )[i] == return_value_spec(
                c,
                call,
                exp,
                arguments,
                if i < default_returns_spec(exp.ty).len() {
                    default_returns_spec(exp.ty)[i]
                } else {
                    ValueStateView::top_spec()
                },
                summary[i],
                st,
            ),
    decreases n,
{
    if n > 0 {
        lemma_return_values(c, call, exp, arguments, summary, (n - 1) as nat, st);
    }
}

pub proof fn lemma_defaults_without_risks(ty: Type, i: int)
    requires
        0 <= i < default_returns_spec(ty).len(),
    ensures
        default_returns_spec(ty)[i].risky_origins.len() == 0,
{
}

/// A risk that a function returns reaches its callers: the value that a call gives carries it,
/// unless the argument that it comes from rules it out. It carries the risks of the arguments that
/// it depends on as well.
pub proof fn callee_risks_reach_the_caller(
    c: Ctx,
    call: ModuleCall,
    exp: Exp,
    arguments: Seq<ValueStateView>,
    st: AbstractStateView,
    i: int,
    j: int,
    p: int,
    key: Seq<char>,
)
    requires
        c.summary_of(call.callee) is Some,
        0 <= i < c.summary_of(call.callee)->0.len(),
    ensures
        i < call_values_spec(c, call, exp, arguments, st).len(),
        ({
            let returned = c.summary_of(call.callee)->0[i];
            let value = call_values_spec(c, call, exp, arguments, st)[i];
            &&& 0 <= j < returned.risky_origins.len() && mapped_origin_spec(
                returned.risky_origins[j],
                arguments,
            ) is Some ==> carries(value.risky_origins, returned.risky_origins[j].key)
            &&& 0 <= p < arguments.len() && returned.parameter_dependencies.contains(p as usize)
                && carries(arguments[p].risky_origins, key) ==> carries(value.risky_origins, key)
        }),
{
    let summary = c.summary_of(call.callee)->0;
    lemma_return_values(c, call, exp, arguments, summary, summary.len(), st);
    let base = if i < default_returns_spec(exp.ty).len() {
        default_returns_spec(exp.ty)[i]
    } else {
        ValueStateView::top_spec()
    };
    if i < default_returns_spec(exp.ty).len() {
        lemma_defaults_without_risks(exp.ty, i);
    }
    lemma_return_value(c, call, exp, arguments, base, summary[i], st);
}

/// A risk of a shift or a cast is ruled out by an argument only where no number that the argument
/// can be exceeds the threshold.
pub proof fn discharged_risks_do_not_arise(
    origin: RiskOriginView,
    argument: ValueStateView,
    x: U256,
)
    requires
        argument.admits(x),
        discharged_spec(origin, argument),
        origin.obligation_kind is Absent,
    ensures
        origin.threshold is Some,
        x@ <= origin.threshold->0@,
{
}

proof fn lemma_call_coherent(
    c: Ctx,
    call: ModuleCall,
    exp: Exp,
    arguments: Seq<ValueStateView>,
    st: AbstractStateView,
)
    requires
        coherent_summaries(c.summaries),
        coherent_values(arguments),
    ensures
        coherent_values(call_values_spec(c, call, exp, arguments, st)),
{
    let values = call_values_spec(c, call, exp, arguments, st);
    let defaults = default_returns_spec(exp.ty);
    assert forall|i: int| 0 <= i < values.len() implies coherent((#[trigger] values[i]).risky_origins) by {
        if i < defaults.len() {
            lemma_defaults_without_risks(exp.ty, i);
        }
        if let Some(summary) = c.summary_of(call.callee) {
            if summary.len() > 0 {
                lemma_return_values(c, call, exp, arguments, summary, summary.len(), st);
                let base = if i < defaults.len() {
                    defaults[i]
                } else {
                    ValueStateView::top_spec()
                };
                lemma_return_value(c, call, exp, arguments, base, summary[i], st);
                let f = resolve_spec(
                    c.functions,
                    c.kept,
                    call.callee,
                    0,
                )->0;
                assert(summary == c.summaries[f as int]);
                assert(coherent(c.summaries[f as int][i].risky_origins));
            }
        }
    }
}

/// The values of an expression are coherent.
pub proof fn lemma_eval_coherent(c: Ctx, e: Exp, st: AbstractStateView)
    requires
        coherent_summaries(c.summaries),
        coherent_state(st),
    ensures
        coherent_values(eval_spec(c, e, st).0),
    decreases e, 0nat,
{
    match e.value {
        UnannotatedExp::Move(var) | UnannotatedExp::Copy(var) | UnannotatedExp::BorrowLocal(var) => {
            if st.locals.contains_key(var.index) {
                assert(coherent(st.locals[var.index].risky_origins));
            }
        },
        UnannotatedExp::Freeze(inner)
        | UnannotatedExp::Dereference(inner)
        | UnannotatedExp::Borrow(inner, _) => lemma_eval_coherent(c, *inner, st),
        UnannotatedExp::Multiple(values) => {
            lemma_eval_each_coherent(c, values@, values@.len(), st);
        },
        UnannotatedExp::ModuleCall(call) => {
            let arguments = eval_each_spec(c, call.arguments@, call.arguments@.len(), st).0;
            lemma_eval_each_coherent(c, call.arguments@, call.arguments@.len(), st);
            lemma_call_coherent(c, *call, e, arguments, st);
        },
        UnannotatedExp::Cast(inner, builtin) => {
            lemma_eval_coherent(c, *inner, st);
            let value = first_or_top_spec(eval_spec(c, *inner, st).0);
            lemma_cast(
                c,
                e,
                *inner,
                value,
                builtin,
                st,
                RiskKind::ReachableNarrowCast,
                e.loc,
            );
        },
        UnannotatedExp::BinopExp(lhs, op, rhs) => {
            lemma_eval_coherent(c, *lhs, st);
            lemma_eval_coherent(c, *rhs, st);
            results_carry_the_risks_of_operands(
                c,
                e,
                *lhs,
                first_or_top_spec(eval_spec(c, *lhs, st).0),
                op,
                *rhs,
                first_or_top_spec(eval_spec(c, *rhs, st).0),
                st,
                RiskKind::ReachableNarrowCast,
                e.loc,
            );
        },
        _ => {},
    }
}

proof fn lemma_eval_each_coherent(c: Ctx, es: Seq<Exp>, n: nat, st: AbstractStateView)
    requires
        coherent_summaries(c.summaries),
        coherent_state(st),
        n <= es.len(),
    ensures
        coherent_values(eval_each_spec(c, es, n, st).0),
    decreases es, n,
{
    if n > 0 {
        lemma_eval_each_coherent(c, es, (n - 1) as nat, st);
        assert(decreases_to!(es => es[n - 1]));
        lemma_eval_coherent(c, es[n - 1], st);
    }
}

} // verus!
