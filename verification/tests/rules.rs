//! The rules, the proofs about ranges, and the interpretation of single operations and branches.

use sui_move_analyzer::ast::{
    BaseType, BinOp, Block, Body, BuiltinTypeName, Command, CommandKind, Exp, Function,
    FunctionBody, FunctionKey, LValue, Loc, Local, ModuleCall, ModuleIdent, Parameter, Program,
    SingleType, Type, UnannotatedExp, Value, Var, Visibility,
};
use sui_move_analyzer::cfg::{build_cfg, function_cfg, function_name_text};
use sui_move_analyzer::domain::bit_facts::BitFacts;
use sui_move_analyzer::domain::denominator::{
    denominator_condition, denominator_title, positivity, violated_obligation,
};
use sui_move_analyzer::domain::formula::{FormulaFacts, FormulaFactor, ProofMode};
use sui_move_analyzer::domain::interval::Interval;
use sui_move_analyzer::domain::risk::{
    ConstraintOp, ObligationKind, PathFact, RiskKind, RiskOrigin,
};
use sui_move_analyzer::domain::state::AbstractState;
use sui_move_analyzer::domain::tags::TagSet;
use sui_move_analyzer::domain::value::ValueState;
use sui_move_analyzer::options::SecurityMathMode;
use sui_move_analyzer::report::{SecurityFinding, Severity, SinkKind};
use sui_move_analyzer::rules::{
    all_rules, fake_checked_shift, invalid_shift_count, lossy_right_shift, narrow_cast,
    rounding_mismatch, shift_truncation, suspicious_bitwise, weak_denominator, RuleCtx,
};
use sui_move_analyzer::smt::{bounds, path_facts_for_var, product, shift};
use sui_move_analyzer::summaries::FunctionSummary;
use sui_move_analyzer::transfer::binop::{
    checked_binary_interval, div_interval, full_interval, strongest_upper_bound,
};
use sui_move_analyzer::transfer::callgraph::{called_functions, reachable_functions};
use sui_move_analyzer::transfer::constraints::{
    constrained_interval, constraint_interval, merge_intervals,
};
use sui_move_analyzer::transfer::context::{fold, AnalysisMode, FunctionAnalyzer};
use sui_move_analyzer::transfer::describe::{borrow_field_name, describe, describe_value};
use sui_move_analyzer::transfer::program::{analyze_cfgir_program_findings, ProgramAnalyzer};
use sui_move_analyzer::u256::U256;

fn n(value: u128) -> U256 {
    U256::from_u128(value)
}

fn text(s: &str) -> String {
    s.to_string()
}

fn loc(start: u32) -> Loc {
    Loc { file_hash: n(1), start, end: start + 1 }
}

fn ctx() -> RuleCtx {
    RuleCtx { exp_loc: loc(7), fn_name: text("f"), path_facts: vec![text("x < 9")] }
}

fn within(lower: u128, upper: u128) -> ValueState {
    ValueState::with_interval(Interval::between(n(lower), n(upper)))
}

#[test]
fn every_rule_is_listed_with_its_kind() {
    let rules = all_rules();
    assert_eq!(rules.len(), 8);
    for rule in &rules {
        assert_eq!(rule.rule_id(), rule.kind().rule_id());
        assert!(!rule.short_description().is_empty());
    }
    assert_eq!(rules[0].kind(), RiskKind::InvalidShiftCount);
    assert_eq!(rules[7].kind(), RiskKind::SuspiciousBitwiseArithmetic);
}

#[test]
fn shifts_are_safe_up_to_the_threshold() {
    let threshold = shift_truncation::no_truncation_threshold(64, 8);
    assert_eq!(threshold, n((1 << 56) - 1));
    assert_eq!(threshold.shl(8), n(u64::MAX as u128 - 255));
    assert_eq!(
        shift_truncation::no_truncation_threshold(256, 64),
        U256::max_value().shr(64),
    );
    let safe = within(0, (1 << 56) - 1);
    assert!(shift_truncation::check_shl(&ctx(), &safe, "x", 64, 8, None).is_none());
    let risky = within(0, 1 << 56);
    let origin = shift_truncation::check_shl(&ctx(), &risky, "x", 64, 8, None).unwrap();
    assert_eq!(origin.kind, RiskKind::ReachableShiftTruncation);
    assert_eq!(origin.threshold, Some(threshold));
    assert_eq!(origin.failed_condition, "x <= 72057594037927935 (MAX_U64 >> 8)");
    assert_eq!(origin.path_facts, vec![text("x < 9")]);
}

#[test]
fn guards_above_the_threshold_are_fake() {
    let risky = within(0, u64::MAX as u128);
    let weak = shift_truncation::check_shl(&ctx(), &risky, "x", 64, 8, Some(n(1 << 60))).unwrap();
    assert_eq!(weak.kind, RiskKind::FakeCheckedShift);
    assert!(weak.guard_mismatch);
    assert!(fake_checked_shift::guard_is_weaker_than_threshold(Some(n(9)), n(8)));
    assert!(!fake_checked_shift::guard_is_weaker_than_threshold(Some(n(8)), n(8)));
    assert!(!fake_checked_shift::guard_is_weaker_than_threshold(None, n(8)));
}

#[test]
fn counts_have_to_be_below_the_width() {
    let count = ValueState::exact_uint(8, n(64));
    assert!(invalid_shift_count::check(&ctx(), &count, 64, 63).is_none());
    let origin = invalid_shift_count::check(&ctx(), &count, 64, 64).unwrap();
    assert_eq!(origin.kind, RiskKind::InvalidShiftCount);
    assert_eq!(origin.failed_condition, "64 < 64");
}

#[test]
fn casts_have_to_fit() {
    assert!(narrow_cast::check(&ctx(), &within(0, 255), "x", 8).is_none());
    let origin = narrow_cast::check(&ctx(), &within(0, 256), "x", 8).unwrap();
    assert_eq!(origin.kind, RiskKind::ReachableNarrowCast);
    assert_eq!(origin.failed_condition, "x <= 255");
    assert_eq!(narrow_cast::cast_max(16), n(65535));
}

#[test]
fn right_shifts_lose_only_bits_that_may_be_set() {
    assert_eq!(lossy_right_shift::discarded_mask(64, 4), n(15));
    assert_eq!(lossy_right_shift::discarded_mask(64, 0), n(0));
    let mut exact = ValueState::with_width(64);
    exact.bit_facts = Some(BitFacts::unknown(64).shift_left(4, 64));
    assert!(lossy_right_shift::check(&ctx(), &exact, "x", 64, 4).is_none());
    let origin = lossy_right_shift::check(&ctx(), &exact, "x", 64, 5).unwrap();
    assert_eq!(origin.failed_condition, "(x & 31) == 0");
    let unknown = ValueState::with_width(64);
    assert!(lossy_right_shift::check(&ctx(), &unknown, "x", 64, 1).is_some());
    assert!(lossy_right_shift::check(&ctx(), &unknown, "x", 64, 0).is_none());
}

#[test]
fn exact_bitwise_results_are_not_suspicious() {
    let exact = ValueState::exact_uint(64, n(3));
    assert!(suspicious_bitwise::check(&ctx(), &exact, "x | 1").is_none());
    let origin = suspicious_bitwise::check(&ctx(), &ValueState::with_width(64), "x | 1").unwrap();
    assert_eq!(origin.failed_condition, "exact range of x | 1 is known");
}

#[test]
fn rounding_conflicts_are_reported() {
    let mut facts = FormulaFacts::from_name("price", false).unwrap();
    let mut value = ValueState::with_width(64);
    value.formula_facts = Some(facts.clone());
    assert!(rounding_mismatch::check(&ctx(), &value, loc(2), None).is_none());
    facts.rounding_conflict = true;
    value.formula_facts = Some(facts);
    let origin = rounding_mismatch::check(&ctx(), &value, loc(2), Some("returned")).unwrap();
    assert_eq!(origin.kind, RiskKind::ReachableRoundingMismatch);
    assert_eq!(origin.loc, loc(2));
    assert_eq!(origin.obligation_kind, ObligationKind::RoundingConsistency);
}

fn weak(denominator: &ValueState) -> Option<RiskOrigin> {
    weak_denominator::check(
        &ctx(),
        &ValueState::with_width(64),
        denominator,
        loc(2),
        "d",
        false,
        SecurityMathMode::Fast,
        None,
        None,
    )
}

#[test]
fn denominators_have_to_be_above_zero() {
    assert!(weak(&within(1, 9)).is_none());
    let origin = weak(&within(0, 9)).unwrap();
    assert_eq!(origin.kind, RiskKind::ReachableWeakDenominator);
    assert_eq!(origin.obligation_kind, ObligationKind::NonZeroDivisor);
    assert_eq!(origin.threshold, Some(n(0)));
    let positive = FormulaFactor::new(text("a"), TagSet::empty(), true);
    let open = FormulaFactor::new(text("b"), TagSet::empty(), false);
    let both = vec![positive.clone(), open.clone()];
    let range = Interval::between(n(1), n(9));
    assert_eq!(
        violated_obligation(&range, &both, true),
        Some(ObligationKind::IndependentFactorPositivity),
    );
    assert_eq!(violated_obligation(&range, &both, false), None);
    assert_eq!(violated_obligation(&Interval::top(), &vec![positive], true), None);
    assert_eq!(
        violated_obligation(&Interval::top(), &vec![open], true),
        Some(ObligationKind::NonZeroDivisor),
    );
}

#[test]
fn denominators_are_described() {
    let labels = vec![text("a"), text("b")];
    assert_eq!(positivity(&labels), "a > 0 && b > 0");
    let condition = denominator_condition(
        ObligationKind::IndependentFactorPositivity,
        false,
        "a * b",
        &labels,
    );
    assert!(condition.contains("a > 0 && b > 0"));
    let clmm = denominator_title(ObligationKind::NonZeroDivisor, true);
    assert_ne!(clmm, denominator_title(ObligationKind::NonZeroDivisor, false));
}

#[test]
fn products_of_positive_values_are_positive() {
    let (a, b) = (within(2, 5), within(3, 4));
    assert!(product::proven_strictly_positive(&a, &b));
    assert_eq!(product::proven_lower_bound(&a, &b), Some(n(6)));
    assert!(!product::proven_strictly_positive(&a, &within(0, 1)));
    assert_eq!(product::proven_lower_bound(&a, &within(0, 1)), None);
    assert!(product::definitely_zero(&a, &ValueState::exact_uint(8, n(0))));
    assert!(!product::definitely_zero(&a, &b));
}

#[test]
fn ranges_are_proved() {
    assert!(bounds::proven_in_range(&within(2, 5), n(2), n(5)));
    assert!(!bounds::proven_in_range(&within(2, 5), n(3), n(5)));
    assert!(!bounds::proven_in_range(&ValueState::top(), n(0), U256::max_value()));
    assert!(bounds::proven_non_zero(&within(1, 1)));
    assert!(!bounds::proven_non_zero(&within(0, 1)));
}

fn fact(var: usize, op: ConstraintOp, bound: u128) -> PathFact {
    PathFact { var: Some(Var { index: var }), op, bound: Some(n(bound)), text: text("fact") }
}

#[test]
fn path_facts_prove_a_shift_safe() {
    assert!(shift::path_proves_safe(n(9), &vec![fact(0, ConstraintOp::Lt, 10)]));
    assert!(shift::path_proves_safe(n(9), &vec![fact(0, ConstraintOp::Le, 9)]));
    assert!(!shift::path_proves_safe(n(9), &vec![fact(0, ConstraintOp::Le, 10)]));
    assert!(!shift::path_proves_safe(n(9), &vec![fact(0, ConstraintOp::Ge, 1)]));
    assert!(shift::proven_safe(Some(n(9)), n(9), &vec![]));
    assert!(!shift::proven_safe(None, n(9), &vec![]));
    let mut state = AbstractState::new();
    state.path_facts = vec![fact(0, ConstraintOp::Lt, 10), fact(1, ConstraintOp::Eq, 3)];
    let about = path_facts_for_var(&state, Var { index: 1 });
    assert_eq!(about.len(), 1);
    assert_eq!(about[0].bound, Some(n(3)));
}

#[test]
fn comparisons_are_ranges() {
    let max = U256::max_value();
    assert_eq!(constraint_interval(ConstraintOp::Lt, n(5)), Some(Interval::between(n(0), n(4))));
    assert_eq!(constraint_interval(ConstraintOp::Lt, n(0)), Some(Interval::bottom()));
    assert_eq!(constraint_interval(ConstraintOp::Ge, n(5)), Some(Interval::between(n(5), max)));
    assert_eq!(constraint_interval(ConstraintOp::Gt, max), Some(Interval::bottom()));
    assert_eq!(constraint_interval(ConstraintOp::Ne, n(5)), None);
    assert_eq!(ConstraintOp::Lt.negated(), ConstraintOp::Ge);
    assert_eq!(ConstraintOp::Lt.flipped(), ConstraintOp::Gt);
}

#[test]
fn comparisons_narrow_a_range() {
    let range = Interval::between(n(0), n(10));
    let narrowed = |op, bound| constrained_interval(&range, op, n(bound));
    assert_eq!(narrowed(ConstraintOp::Lt, 5), Interval::between(n(0), n(4)));
    assert_eq!(narrowed(ConstraintOp::Gt, 5), Interval::between(n(6), n(10)));
    assert_eq!(narrowed(ConstraintOp::Eq, 5), Interval::between(n(5), n(5)));
    assert_eq!(narrowed(ConstraintOp::Ne, 0), Interval::between(n(1), n(10)));
    assert_eq!(narrowed(ConstraintOp::Ne, 10), Interval::between(n(0), n(9)));
    assert_eq!(narrowed(ConstraintOp::Ne, 5), range);
    assert_eq!(narrowed(ConstraintOp::Ge, 11), Interval::bottom());
    assert_eq!(
        constrained_interval(&Interval::singleton(n(3)), ConstraintOp::Ne, n(3)),
        Interval::bottom(),
    );
}

#[test]
fn alternatives_that_touch_are_one_bound() {
    let zero = Interval::between(n(0), n(0));
    let low = Interval::between(n(0), n(9));
    assert_eq!(merge_intervals(&zero, &low), Some((ConstraintOp::Le, n(9))));
    let apart = Interval::between(n(20), n(30));
    assert_eq!(merge_intervals(&low, &apart), None);
    let high = Interval::between(n(5), U256::max_value());
    assert_eq!(
        merge_intervals(&high, &Interval::between(n(3), n(7))),
        Some((ConstraintOp::Ge, n(3))),
    );
}

#[test]
fn constants_are_folded() {
    assert_eq!(fold(BinOp::Add, n(2), n(3)), Some(n(5)));
    assert_eq!(fold(BinOp::Sub, n(2), n(3)), None);
    assert_eq!(fold(BinOp::Div, n(7), n(0)), None);
    assert_eq!(fold(BinOp::Mod, n(7), n(4)), Some(n(3)));
    assert_eq!(fold(BinOp::Shl, n(1), n(192)), Some(n(1).shl(192)));
    assert_eq!(fold(BinOp::Eq, n(1), n(1)), None);
}

#[test]
fn ranges_of_arithmetic() {
    let (a, b) = (Interval::between(n(1), n(5)), Interval::between(n(2), n(3)));
    assert_eq!(
        checked_binary_interval(&a, &b, Some(64), BinOp::Add),
        Interval::between(n(3), n(8)),
    );
    assert_eq!(
        checked_binary_interval(&a, &b, Some(64), BinOp::Mul),
        Interval::between(n(2), n(15)),
    );
    let large = Interval::between(n(0), n(200));
    assert_eq!(
        checked_binary_interval(&large, &large, Some(8), BinOp::Add),
        Interval::between(n(0), n(255)),
    );
    let tens = Interval::between(n(0), n(10));
    assert_eq!(checked_binary_interval(&tens, &tens, Some(64), BinOp::Sub), tens);
    assert_eq!(
        checked_binary_interval(&Interval::between(n(7), n(9)), &b, Some(64), BinOp::Sub),
        Interval::between(n(4), n(7)),
    );
    assert_eq!(
        checked_binary_interval(&b, &Interval::between(n(4), n(5)), Some(8), BinOp::Sub),
        full_interval(Some(8)),
    );
    assert_eq!(
        checked_binary_interval(&Interval::top(), &b, Some(8), BinOp::Sub),
        full_interval(Some(8)),
    );
    assert_eq!(checked_binary_interval(&a, &b, None, BinOp::Sub), Interval::top());
    assert_eq!(div_interval(&Interval::between(n(6), n(9)), &b, Some(64)).lower, Some(n(2)));
    assert_eq!(div_interval(&Interval::between(n(6), n(9)), &b, Some(64)).upper, Some(n(4)));
    assert_eq!(div_interval(&a, &Interval::between(n(0), n(3)), Some(8)), full_interval(Some(8)));
    assert_eq!(full_interval(None), Interval::top());
}

fn unsigned() -> SingleType {
    SingleType::Base(BaseType::Builtin(BuiltinTypeName::U64))
}

fn exp(value: UnannotatedExp) -> Exp {
    Exp { ty: Type::Single(unsigned()), loc: loc(3), value }
}

fn var(index: usize) -> Exp {
    exp(UnannotatedExp::Copy(Var { index }))
}

fn number(value: u64) -> Exp {
    exp(UnannotatedExp::Value(Value::U64(value)))
}

fn binary(lhs: Exp, op: BinOp, rhs: Exp) -> Exp {
    exp(UnannotatedExp::BinopExp(Box::new(lhs), op, Box::new(rhs)))
}

fn key(name: &str) -> FunctionKey {
    FunctionKey {
        module: ModuleIdent { address: n(7), name: text("m"), text: text("0x7::m") },
        name: text(name),
    }
}

fn command(value: CommandKind) -> Command {
    Command { loc: loc(9), value }
}

fn function(name: &str, parameters: usize, commands: Vec<Command>) -> Function {
    let names = ["a", "b", "c"];
    Function {
        key: key(name),
        loc: loc(0),
        source_path: None,
        visibility: Visibility::Public,
        is_entry: false,
        parameters: (0..parameters)
            .map(|index| Parameter { var: Var { index }, ty: unsigned() })
            .collect(),
        vars: names.iter().map(|name| Local { name: text(name), ty: unsigned() }).collect(),
        body: FunctionBody::Defined(
            Body {
                start: 0,
                blocks: vec![Block { commands, predecessors: vec![], successors: vec![] }],
            },
        ),
    }
}

fn call(name: &str, arguments: Vec<Exp>) -> Exp {
    exp(UnannotatedExp::ModuleCall(Box::new(ModuleCall { callee: key(name), arguments })))
}

#[test]
fn expressions_are_described() {
    let f = function("f", 2, vec![]);
    assert_eq!(describe(&f, &binary(var(0), BinOp::Shl, number(8))), "a << 8u64");
    assert_eq!(describe_value(&Value::Bool(true)), "true");
    assert_eq!(BinOp::BitAnd.symbol(), "&");
    assert_eq!(f.var_name(Var { index: 1 }), "b");
    let field = exp(UnannotatedExp::Borrow(Box::new(var(0)), text("amount")));
    assert_eq!(borrow_field_name(&field), Some((loc(3), text("amount"))));
    let inner = exp(UnannotatedExp::Borrow(Box::new(field), text("value")));
    assert_eq!(borrow_field_name(&inner), Some((loc(3), text("amount.value"))));
    assert_eq!(borrow_field_name(&var(0)), None);
}

#[test]
fn bodies_are_found() {
    let f = function("f", 0, vec![]);
    assert!(build_cfg(&f).is_some());
    assert_eq!(function_cfg(&f).unwrap().0, 0);
    assert_eq!(function_name_text(&f.key), "f");
    let mut native = f;
    native.body = FunctionBody::Native;
    assert!(build_cfg(&native).is_none());
    assert!(function_cfg(&native).is_none());
}

#[test]
fn functions_are_reached_through_others() {
    let program = Program {
        functions: vec![
            function("root", 0, vec![command(CommandKind::Return(call("middle", vec![])))]),
            function("middle", 0, vec![command(CommandKind::IgnoreAndPop(call("leaf", vec![])))]),
            function("leaf", 0, vec![]),
            function("alone", 0, vec![command(CommandKind::Return(call("leaf", vec![])))]),
        ],
    };
    let all = vec![true; 4];
    let calls = called_functions(&program, &all, &program.functions[0]);
    assert!(calls.contains(1));
    assert!(!calls.contains(2));
    assert_eq!(
        reachable_functions(&program, &all, &vec![true, false, false, false]),
        vec![true, true, true, false],
    );
    assert_eq!(
        reachable_functions(&program, &vec![true, false, true, true], &vec![true, false, false, false]),
        vec![true, false, false, false],
    );
}

fn with_analyzer(run: &dyn Fn(&FunctionAnalyzer<'_>)) {
    let program = Program { functions: vec![function("f", 2, vec![])] };
    let kept = vec![true];
    let summaries = vec![FunctionSummary::empty()];
    run(
        &FunctionAnalyzer {
            function: &program.functions[0],
            program: &program,
            kept: &kept,
            summaries: &summaries,
            mode: AnalysisMode::Findings,
            math_mode: SecurityMathMode::Fast,
        },
    );
}

#[test]
fn parameters_are_arbitrary_values_of_their_types() {
    with_analyzer(
        &|analyzer| {
            let state = analyzer.initial_state();
            let value = analyzer.lookup_var(&state, Var { index: 1 });
            assert_eq!(value.interval, Interval::between(n(0), n(u64::MAX as u128)));
            assert!(value.parameter_dependencies.contains(1));
            assert!(!value.parameter_dependencies.contains(0));
        },
    );
}

#[test]
fn guards_are_known_on_their_path() {
    with_analyzer(
        &|analyzer| {
            let guard = binary(var(0), BinOp::Le, number(100));
            let mut inside = analyzer.initial_state();
            analyzer.apply_condition(&guard, true, &mut inside);
            let value = analyzer.lookup_var(&inside, Var { index: 0 });
            assert_eq!(value.interval, Interval::between(n(0), n(100)));
            assert_eq!(strongest_upper_bound(&var(0), &inside), Some(n(100)));
            let mut outside = analyzer.initial_state();
            analyzer.apply_condition(&guard, false, &mut outside);
            let value = analyzer.lookup_var(&outside, Var { index: 0 });
            assert_eq!(value.interval.lower, Some(n(101)));
            assert_eq!(strongest_upper_bound(&var(0), &outside), None);
            let mut never = inside;
            analyzer.apply_condition(&binary(var(0), BinOp::Gt, number(100)), true, &mut never);
            assert!(never.unreachable);
        },
    );
}

fn origins_of(e: &Exp, guard: Option<&Exp>) -> Vec<RiskKind> {
    let kinds = std::cell::RefCell::new(vec![]);
    with_analyzer(
        &|analyzer| {
            let mut state = analyzer.initial_state();
            if let Some(guard) = guard {
                analyzer.apply_condition(guard, true, &mut state);
            }
            let mut out: Vec<SecurityFinding> = vec![];
            let values = analyzer.eval_exp(e, &state, &mut out);
            kinds.borrow_mut().extend(values[0].risky_origins.iter().map(|o| o.kind));
        },
    );
    kinds.into_inner()
}

#[test]
fn guarded_shifts_carry_no_risk() {
    let shift = binary(var(0), BinOp::Shl, number(8));
    assert_eq!(origins_of(&shift, None), vec![RiskKind::ReachableShiftTruncation]);
    let exact = binary(var(0), BinOp::Le, number(u64::MAX >> 8));
    assert_eq!(origins_of(&shift, Some(&exact)), vec![]);
    let weak = binary(var(0), BinOp::Le, number((u64::MAX >> 8) + 1));
    assert_eq!(origins_of(&shift, Some(&weak)), vec![RiskKind::FakeCheckedShift]);
}

#[test]
fn shifts_guarded_either_way_carry_no_risk() {
    let shift = binary(var(0), BinOp::Shl, number(8));
    let zero = || binary(var(0), BinOp::Eq, number(0));
    let below = |bound: u64| binary(var(0), BinOp::Lt, number(bound));
    let safe = binary(zero(), BinOp::Or, below(1 << 56));
    assert_eq!(origins_of(&shift, Some(&safe)), vec![]);
    let weak = binary(zero(), BinOp::Or, below((1 << 56) + 1));
    assert_eq!(origins_of(&shift, Some(&weak)), vec![RiskKind::FakeCheckedShift]);
}

#[test]
fn shifted_differences_carry_a_risk() {
    let difference = binary(var(0), BinOp::Sub, var(1));
    let shift = binary(difference, BinOp::Shl, number(8));
    assert_eq!(origins_of(&shift, None), vec![RiskKind::ReachableShiftTruncation]);
    let exact = binary(var(0), BinOp::Le, number(u64::MAX >> 8));
    assert_eq!(origins_of(&shift, Some(&exact)), vec![]);
}

#[test]
fn shifts_of_an_open_range_give_the_full_range() {
    let mut open = ValueState::with_width(64);
    open.bit_facts = None;
    open.interval = Interval { lower: Some(n(16)), upper: None, bottom: false };
    with_analyzer(
        &|analyzer| {
            let shift = binary(var(0), BinOp::Shr, number(3));
            let mut out: Vec<SecurityFinding> = vec![];
            let value = analyzer.eval_binop(
                &shift,
                &var(0),
                &open,
                BinOp::Shr,
                &number(3),
                &ValueState::exact_uint(64, n(3)),
                &analyzer.initial_state(),
                &mut out,
            );
            assert_eq!(value.interval, full_interval(Some(64)));
        },
    );
}

#[test]
fn constants_are_computed_on_all_bits() {
    let byte = |value: UnannotatedExp| Exp {
        ty: Type::Single(SingleType::Base(BaseType::Builtin(BuiltinTypeName::U8))),
        loc: loc(3),
        value,
    };
    let literal = |value: u8| byte(UnannotatedExp::Value(Value::U8(value)));
    with_analyzer(
        &|analyzer| {
            let state = analyzer.initial_state();
            let shift = byte(
                UnannotatedExp::BinopExp(Box::new(literal(3)), BinOp::Shl, Box::new(literal(7))),
            );
            assert_eq!(analyzer.const_value(&shift, &state), Some(n(384)));
            let wide = binary(number(3), BinOp::Shl, number(7));
            assert_eq!(analyzer.const_value(&wide, &state), Some(n(384)));
            let guard = binary(var(0), BinOp::Le, shift);
            let mut inside = analyzer.initial_state();
            analyzer.apply_condition(&guard, true, &mut inside);
            let value = analyzer.lookup_var(&inside, Var { index: 0 });
            assert_eq!(value.interval, Interval::between(n(0), n(384)));
        },
    );
}

#[test]
fn the_first_block_is_entered_from_its_predecessors_once_they_ran() {
    let block = |commands: Vec<Command>, predecessors: Vec<usize>, successors: Vec<usize>| Block {
        commands,
        predecessors,
        successors,
    };
    let body = Body {
        start: 0,
        blocks: vec![block(vec![], vec![1], vec![1]), block(vec![], vec![0], vec![0])],
    };
    with_analyzer(
        &|analyzer| {
            let mut one = analyzer.initial_state();
            let guard = binary(var(0), BinOp::Eq, number(1));
            analyzer.apply_condition(&guard, true, &mut one);
            let exact = Interval::between(n(1), n(1));
            assert_eq!(analyzer.lookup_var(&one, Var { index: 0 }).interval, exact);
            let after = vec![Some(one.clone()), Some(one)];
            let first = analyzer.block_in(&body, 0, &vec![None, None]);
            assert_eq!(
                analyzer.lookup_var(&first, Var { index: 0 }).interval,
                full_interval(Some(64)),
            );
            let again = analyzer.block_in(&body, 0, &after);
            assert_eq!(analyzer.lookup_var(&again, Var { index: 0 }).interval, exact);
            let second = analyzer.block_in(&body, 1, &after);
            assert_eq!(analyzer.lookup_var(&second, Var { index: 0 }).interval, exact);
        },
    );
}

#[test]
fn branches_narrow_each_way() {
    let branch = |if_true: usize, if_false: usize| Body {
        start: 0,
        blocks: vec![
            Block {
                commands: vec![
                    command(
                        CommandKind::JumpIf(
                            binary(var(0), BinOp::Lt, number(5)),
                            if_true,
                            if_false,
                        ),
                    ),
                ],
                predecessors: vec![],
                successors: vec![if_true, if_false],
            },
        ],
    };
    with_analyzer(
        &|analyzer| {
            let state = analyzer.initial_state();
            let range = |body: &Body, to: usize| {
                let refined = analyzer.refine_edge(body, 0, to, &state);
                analyzer.lookup_var(&refined, Var { index: 0 }).interval
            };
            assert_eq!(range(&branch(1, 2), 1), Interval::between(n(0), n(4)));
            assert_eq!(range(&branch(1, 2), 2), Interval::between(n(5), n(u64::MAX as u128)));
            assert_eq!(range(&branch(1, 1), 1), Interval::between(n(0), n(4)));
        },
    );
}

fn severities(value: &ValueState, sink_kind: SinkKind, financial: bool) -> Vec<Severity> {
    let found = std::cell::RefCell::new(vec![]);
    with_analyzer(
        &|analyzer| {
            let mut out: Vec<SecurityFinding> = vec![];
            analyzer.emit_value(
                value,
                loc(5),
                sink_kind,
                financial,
                &analyzer.initial_state(),
                &None,
                &mut out,
            );
            found.borrow_mut().extend(out.iter().map(|finding| finding.severity));
        },
    );
    found.into_inner()
}

#[test]
fn errors_need_a_financial_sink() {
    let mut facts = FormulaFacts::from_name("price", false).unwrap();
    facts.rounding_conflict = true;
    let mut rounded = ValueState::with_width(64);
    rounded.formula_facts = Some(facts);
    let mut divided = ValueState::with_width(64);
    let mut origin = weak(&within(0, 9)).unwrap();
    origin.proof_mode = ProofMode::Abstract;
    divided.risky_origins = vec![origin];
    for value in [&rounded, &divided] {
        let warning = vec![Severity::Warning];
        let error = vec![Severity::NonblockingError];
        assert_eq!(severities(value, SinkKind::ArithmeticUse, false), warning);
        assert_eq!(severities(value, SinkKind::ArithmeticUse, true), warning);
        assert_eq!(severities(value, SinkKind::PublicReturn, false), warning);
        assert_eq!(severities(value, SinkKind::CallArgument, false), warning);
        assert_eq!(severities(value, SinkKind::PublicReturn, true), error);
        assert_eq!(severities(value, SinkKind::CallArgument, true), error);
        assert_eq!(severities(value, SinkKind::FieldWrite, false), error);
    }
}

#[test]
fn masked_casts_carry_no_risk() {
    let cast = |inner: Exp| exp(UnannotatedExp::Cast(Box::new(inner), BuiltinTypeName::U8));
    assert_eq!(origins_of(&cast(var(0)), None), vec![RiskKind::ReachableNarrowCast]);
    let masked = binary(var(0), BinOp::BitAnd, number(255));
    assert_eq!(origins_of(&cast(masked), None), vec![]);
    let wide = binary(var(0), BinOp::BitAnd, number(256));
    assert_eq!(origins_of(&cast(wide), None), vec![RiskKind::ReachableNarrowCast]);
}

#[test]
fn exact_right_shifts_carry_no_risk() {
    let masked = binary(var(0), BinOp::BitAnd, number(0xff00));
    assert_eq!(origins_of(&binary(masked, BinOp::Shr, number(8)), None), vec![]);
    assert_eq!(
        origins_of(&binary(var(0), BinOp::Shr, number(8)), None),
        vec![RiskKind::ReachableLossyRightShift],
    );
}

#[test]
fn guarded_divisions_carry_no_risk() {
    let division = binary(var(0), BinOp::Div, var(1));
    assert_eq!(origins_of(&division, None), vec![RiskKind::ReachableWeakDenominator]);
    let guard = binary(var(1), BinOp::Neq, number(0));
    assert_eq!(origins_of(&division, Some(&guard)), vec![]);
}

#[test]
fn bits_lost_before_a_return_are_found() {
    let assign = command(
        CommandKind::Assign(
            vec![LValue::Var(Var { index: 2 })],
            binary(var(0), BinOp::Shl, number(8)),
        ),
    );
    let give = command(CommandKind::Return(binary(var(2), BinOp::Add, number(1))));
    let program = Program { functions: vec![function("f", 2, vec![assign, give])] };
    let findings = analyze_cfgir_program_findings(&program, 1000).unwrap();
    assert_eq!(findings.len(), 1);
    assert_eq!(findings[0].kind, RiskKind::ReachableShiftTruncation);
    assert_eq!(findings[0].sink_kind, SinkKind::PublicReturn);
    assert_eq!(findings[0].severity, Severity::NonblockingError);
    let more = analyze_cfgir_program_findings(&program, 100000).unwrap();
    assert_eq!(more, findings);
}

#[test]
fn summaries_pass_risks_to_callers() {
    let shifted = command(CommandKind::Return(binary(var(0), BinOp::Shl, number(8))));
    let passed = command(CommandKind::Return(call("callee", vec![var(0)])));
    let mut callee = function("callee", 1, vec![shifted]);
    callee.visibility = Visibility::Internal;
    let program = Program { functions: vec![callee, function("caller", 2, vec![passed])] };
    let analyzer = ProgramAnalyzer::new(&program, None, None, SecurityMathMode::Fast, 250);
    let summaries = analyzer.compute_summaries(1000).unwrap();
    assert_eq!(summaries[0].returns.len(), 1);
    assert_eq!(summaries[0].returns[0].risky_origins.len(), 1);
    assert_eq!(summaries[1].returns[0].risky_origins.len(), 1);
    let findings = analyzer.run_findings(1000).unwrap();
    assert_eq!(findings.len(), 1);
    assert_eq!(findings[0].kind, RiskKind::ReachableShiftTruncation);
    assert_eq!(analyzer.run(1000).unwrap().len(), 1);
}
