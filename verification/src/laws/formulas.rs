//! Formulas: what the names of quantities tell, and what operations make of their factors.

use crate::domain::denominator::denominator_title_spec;
use crate::domain::formula::{
    tags_of_name, var_id, ExprOp, FormulaFactorView, FormulaFacts, FormulaFactsView,
};
use crate::domain::risk::ObligationKind;
use crate::domain::tags::{FormulaTag, RoleSet, SemanticRole, TagSet};
use crate::domain::value::ValueStateView;
use crate::laws::reports::lemma_add_missing;
use crate::laws::texts::{
    is_lower_of, lemma_lower_char, mentions, mentions_at, words_are_found_in_any_case,
};
use crate::model::add_missing;
use crate::text::{decimal, lower};
use crate::transfer::formulas::{
    annotate_spec, binary_node_spec, combine_spec, factors_or_none, find_id, root_spec,
    trace_or_none, with_factor, with_factors,
};
use vstd::prelude::*;

verus! {

/// Whether a name is a word, whatever the case.
pub open spec fn spells(name: Seq<char>, word: Seq<char>) -> bool {
    name.len() == word.len() && mentions_at(name, word, 0)
}

/// The tags of a quantity, from the words in its name.
pub proof fn names_tell_what_a_quantity_is(name: Seq<char>)
    ensures
        ({
            let tags = tags_of_name(name);
            &&& tags.has_spec(FormulaTag::PriceLike) <==> mentions(name, "sqrt_price"@) || spells(
                name,
                "price"@,
            ) || mentions(name, "_price"@)
            &&& tags.has_spec(FormulaTag::PriceDiff) <==> mentions(name, "price_diff"@) || (
            mentions(name, "diff"@) && mentions(name, "price"@))
            &&& tags.has_spec(FormulaTag::LiquidityLike) <==> mentions(name, "liquidity"@)
            &&& tags.has_spec(FormulaTag::DenominatorLike) <==> mentions(name, "denom"@)
                || mentions(name, "denominator"@)
            &&& !tags.has_spec(FormulaTag::PriceProduct)
            &&& !tags.has_spec(FormulaTag::LiquidityScaled)
            &&& !tags.has_spec(FormulaTag::ClmmNumerator)
            &&& !tags.has_spec(FormulaTag::ClmmDenominator)
        }),
{
    reveal(tags_of_name);
    words_are_found_in_any_case(name, "sqrt_price"@);
    words_are_found_in_any_case(name, "_price"@);
    words_are_found_in_any_case(name, "price_diff"@);
    words_are_found_in_any_case(name, "diff"@);
    words_are_found_in_any_case(name, "price"@);
    words_are_found_in_any_case(name, "liquidity"@);
    words_are_found_in_any_case(name, "denom"@);
    words_are_found_in_any_case(name, "denominator"@);
    lemma_spells(name, "price"@);
}

proof fn lemma_spells(name: Seq<char>, word: Seq<char>)
    ensures
        lower(name) == word <==> spells(name, word),
{
    if name.len() == word.len() {
        assert forall|k: int| 0 <= k < word.len() implies (lower(name)[k] == word[k]
            <==> is_lower_of(#[trigger] word[k], name[k])) by {
            lemma_lower_char(name[k], word[k]);
        }
        if spells(name, word) {
            assert forall|k: int| 0 <= k < word.len() implies lower(name)[k] == word[k] by {
                assert(is_lower_of(word[k], name[0 + k]));
            }
            assert(lower(name) =~= word);
        }
        if lower(name) == word {
            assert forall|k: int| 0 <= k < word.len() implies is_lower_of(
                #[trigger] word[k],
                name[0 + k],
            ) by {
                assert(lower(name)[k] == word[k]);
            }
        }
    } else {
        assert(lower(name).len() == name.len());
    }
}

/// A name gives a value a formula exactly where it tells of some tag; the formula is that of a
/// variable of this name.
pub proof fn names_give_formulas(name: Seq<char>, positive: bool)
    ensures
        ({
            let facts = FormulaFactsView::from_name_spec(name, positive);
            &&& facts is Some <==> exists|tag: FormulaTag| #[trigger]
                tags_of_name(name).has_spec(tag)
            &&& facts is Some ==> {
                &&& facts->0.factors.len() == 1
                &&& facts->0.factors[0].name == name
                &&& facts->0.factors[0].strict_positive == positive
                &&& facts->0.factors[0].tags == tags_of_name(name)
                &&& facts->0.tags == tags_of_name(name)
                &&& facts->0.root_expr is Some && facts->0.root_expr->0.op is Var
                    && facts->0.root_expr->0.debug == name
                &&& facts->0.rounding_mode is Exact
                &&& !facts->0.rounding_conflict
            }
        }),
{
    let tags = tags_of_name(name);
    if tags != TagSet::empty_spec() {
        assert(tags.has_spec(FormulaTag::PriceLike) || tags.has_spec(FormulaTag::PriceDiff)
            || tags.has_spec(FormulaTag::LiquidityLike) || tags.has_spec(FormulaTag::PriceProduct)
            || tags.has_spec(FormulaTag::LiquidityScaled) || tags.has_spec(
            FormulaTag::ClmmNumerator,
        ) || tags.has_spec(FormulaTag::ClmmDenominator) || tags.has_spec(
            FormulaTag::DenominatorLike,
        ));
    }
}

/// Whether a tag is one of a formula, where there is one.
pub open spec fn has_tag(facts: Option<FormulaFactsView>, tag: FormulaTag) -> bool {
    facts is Some && facts->0.tags.has_spec(tag)
}

/// An operation has the tags of its operands. The difference of two prices is one of prices, their
/// product a product of prices that makes a denominator.
pub proof fn operations_keep_the_tags(
    op: ExprOp,
    lhs: ValueStateView,
    rhs: ValueStateView,
    debug: Seq<char>,
    tag: FormulaTag,
)
    ensures
        ({
            let made = combine_spec(op, lhs, rhs, debug);
            let (l, r) = (lhs.formula_facts, rhs.formula_facts);
            let prices = has_tag(l, FormulaTag::PriceLike) && has_tag(r, FormulaTag::PriceLike);
            &&& made is Some <==> l is Some || r is Some
            &&& made is Some ==> (made->0.tags.has_spec(tag) <==> has_tag(l, tag) || has_tag(
                r,
                tag,
            ) || prices && op is Sub && tag is PriceDiff || prices && op is Mul && (
            tag is PriceProduct || tag is DenominatorLike))
        }),
{
}

/// The part that the result of an operation plays.
pub proof fn operations_give_roles(
    op: ExprOp,
    lhs: ValueStateView,
    rhs: ValueStateView,
    debug: Seq<char>,
    role: SemanticRole,
)
    requires
        combine_spec(op, lhs, rhs, debug) is Some,
    ensures
        combine_spec(op, lhs, rhs, debug)->0.roles.has_spec(role) <==> (op is Sub
            && role is Difference || op is Mul && role is MulFactor || op is Div && (
        role is DivLhs || role is DivRhs) || op is Mod && role is DivRhs || (op is Shl || op is Shr)
            && role is Pow2Scale),
{
}

/// Whether one of the factors has this id, and whether all that have it are above zero.
pub open spec fn has_id(factors: Seq<FormulaFactorView>, id: u64) -> bool {
    exists|i: int| 0 <= i < factors.len() && (#[trigger] factors[i]).id == id
}

pub open spec fn positive_under(factors: Seq<FormulaFactorView>, id: u64) -> bool {
    forall|i: int|
        0 <= i < factors.len() && (#[trigger] factors[i]).id == id ==> factors[i].strict_positive
}

pub open spec fn ids_differ(factors: Seq<FormulaFactorView>) -> bool {
    forall|i: int, j: int|
        #![trigger factors[i], factors[j]]
        0 <= i < j < factors.len() ==> factors[i].id != factors[j].id
}

proof fn lemma_find_id(factors: Seq<FormulaFactorView>, id: u64, from: nat)
    requires
        from <= factors.len(),
    ensures
        find_id(factors, id, from) is Some <==> exists|j: int|
            from <= j < factors.len() && (#[trigger] factors[j]).id == id,
        find_id(factors, id, from) is Some ==> from <= find_id(factors, id, from)->0
            < factors.len() && factors[find_id(factors, id, from)->0].id == id,
    decreases factors.len() - from,
{
    if from < factors.len() && factors[from as int].id != id {
        lemma_find_id(factors, id, from + 1);
    }
}

proof fn lemma_with_factor(factors: Seq<FormulaFactorView>, factor: FormulaFactorView, id: u64)
    requires
        ids_differ(factors),
    ensures
        ids_differ(with_factor(factors, factor)),
        has_id(with_factor(factors, factor), id) <==> has_id(factors, id) || factor.id == id,
        positive_under(with_factor(factors, factor), id) <==> positive_under(factors, id) && (
        factor.id == id ==> factor.strict_positive),
{
    let now = with_factor(factors, factor);
    lemma_find_id(factors, factor.id, 0);
    match find_id(factors, factor.id, 0) {
        Some(at) => {
            assert forall|i: int| 0 <= i < now.len() implies (#[trigger] now[i]).id
                == factors[i].id by {}
            assert forall|i: int, j: int|
                #![trigger now[i], now[j]]
                0 <= i < j < now.len() implies now[i].id != now[j].id by {
                assert(factors[i].id != factors[j].id);
            }
            if has_id(factors, id) {
                let i = choose|i: int| 0 <= i < factors.len() && (#[trigger] factors[i]).id == id;
                assert(now[i].id == id);
            }
            if has_id(now, id) {
                let i = choose|i: int| 0 <= i < now.len() && (#[trigger] now[i]).id == id;
                assert(factors[i].id == id);
            }
            if factor.id == id {
                assert(now[at].id == id);
                assert(now[at].strict_positive == (factors[at].strict_positive
                    && factor.strict_positive));
            }
            if positive_under(now, id) {
                assert forall|i: int|
                    0 <= i < factors.len() && (#[trigger] factors[i]).id
                        == id implies factors[i].strict_positive by {
                    assert(now[i].id == id);
                }
            }
            if positive_under(factors, id) && (factor.id == id ==> factor.strict_positive) {
                assert forall|i: int| 0 <= i < now.len() && (#[trigger] now[i]).id
                    == id implies now[i].strict_positive by {
                    assert(factors[i].id == id);
                }
            }
        },
        None => {
            let n = factors.len() as int;
            assert(now[n] == factor);
            assert forall|i: int| 0 <= i < n implies now[i] == #[trigger] factors[i] by {}
            if has_id(factors, id) {
                let i = choose|i: int| 0 <= i < factors.len() && (#[trigger] factors[i]).id == id;
                assert(now[i].id == id);
            }
            if has_id(now, id) && factor.id != id {
                let i = choose|i: int| 0 <= i < now.len() && (#[trigger] now[i]).id == id;
                assert(factors[i].id == id);
            }
            if positive_under(now, id) {
                assert forall|i: int|
                    0 <= i < factors.len() && (#[trigger] factors[i]).id
                        == id implies factors[i].strict_positive by {
                    assert(now[i].id == id);
                }
            }
        },
    }
}

proof fn lemma_with_factors(
    factors: Seq<FormulaFactorView>,
    extra: Seq<FormulaFactorView>,
    n: nat,
    id: u64,
)
    requires
        n <= extra.len(),
        ids_differ(factors),
    ensures
        ids_differ(with_factors(factors, extra, n)),
        has_id(with_factors(factors, extra, n), id) <==> has_id(factors, id) || has_id(
            extra.take(n as int),
            id,
        ),
        positive_under(with_factors(factors, extra, n), id) <==> positive_under(factors, id)
            && positive_under(extra.take(n as int), id),
    decreases n,
{
    let some = extra.take(n as int);
    if n > 0 {
        let fewer = extra.take(n - 1);
        lemma_with_factors(factors, extra, (n - 1) as nat, id);
        lemma_with_factor(with_factors(factors, extra, (n - 1) as nat), extra[n - 1], id);
        assert(some =~= fewer.push(extra[n - 1]));
        assert(some[n - 1] == extra[n - 1]);
        assert forall|i: int| 0 <= i < n - 1 implies some[i] == #[trigger] fewer[i] by {}
        if has_id(fewer, id) {
            let i = choose|i: int| 0 <= i < fewer.len() && (#[trigger] fewer[i]).id == id;
            assert(some[i].id == id);
        }
        if has_id(some, id) && extra[n - 1].id != id {
            let i = choose|i: int| 0 <= i < some.len() && (#[trigger] some[i]).id == id;
            assert(fewer[i].id == id);
        }
        if positive_under(some, id) {
            assert forall|i: int|
                0 <= i < fewer.len() && (#[trigger] fewer[i]).id
                    == id implies fewer[i].strict_positive by {
                assert(some[i].id == id);
            }
        }
    } else {
        assert(some.len() == 0);
    }
}

/// An operation has the factors of its operands, each once; one is known to be above zero where it
/// is on each side that has it.
pub proof fn operations_keep_the_factors(
    op: ExprOp,
    lhs: ValueStateView,
    rhs: ValueStateView,
    debug: Seq<char>,
    id: u64,
)
    requires
        combine_spec(op, lhs, rhs, debug) is Some,
    ensures
        ({
            let factors = combine_spec(op, lhs, rhs, debug)->0.factors;
            let l = if lhs.formula_facts is Some {
                lhs.formula_facts->0.factors
            } else {
                Seq::empty()
            };
            let r = if rhs.formula_facts is Some {
                rhs.formula_facts->0.factors
            } else {
                Seq::empty()
            };
            &&& ids_differ(factors)
            &&& has_id(factors, id) <==> has_id(l, id) || has_id(r, id)
            &&& positive_under(factors, id) <==> positive_under(l, id) && positive_under(r, id)
        }),
{
    let l = factors_or_none(lhs.formula_facts);
    let r = factors_or_none(rhs.formula_facts);
    lemma_with_factors(Seq::empty(), l, l.len(), id);
    lemma_with_factors(with_factors(Seq::empty(), l, l.len()), r, r.len(), id);
    assert(l.take(l.len() as int) =~= l);
    assert(r.take(r.len() as int) =~= r);
}

/// The expression behind a value: that of its formula, or the number that it is known to be.
pub proof fn values_have_expressions(value: ValueStateView)
    ensures
        ({
            let root = root_spec(value);
            let own = value.formula_facts is Some && value.formula_facts->0.root_expr is Some;
            &&& own ==> root == value.formula_facts->0.root_expr
            &&& !own ==> (root is Some <==> value.exact_value_spec() is Some)
            &&& !own && root is Some ==> root->0.op is Const && root->0.debug == decimal(
                value.exact_value_spec()->0@,
            ) && root->0.children.len() == 0
        }),
{
}

/// An operation has an expression where both operands have one: of this operation, on their two
/// expressions. Sums and products are the same whichever operand comes first; otherwise the order
/// of the operands is kept.
pub proof fn expressions_know_their_operands(
    op: ExprOp,
    lhs: ValueStateView,
    rhs: ValueStateView,
    debug: Seq<char>,
    other: Seq<char>,
)
    ensures
        ({
            let node = binary_node_spec(op, lhs, rhs, debug);
            let swapped = binary_node_spec(op, rhs, lhs, other);
            let (l, r) = (root_spec(lhs), root_spec(rhs));
            &&& node is Some <==> l is Some && r is Some
            &&& node is Some ==> {
                &&& node->0.op == op
                &&& node->0.debug == debug
                &&& node->0.children.len() == 2
                &&& node->0.children == seq![l->0.id, r->0.id] || node->0.children == seq![
                    r->0.id,
                    l->0.id,
                ]
                &&& op is Add || op is Mul ==> node->0.id == swapped->0.id && node->0.children
                    == swapped->0.children
                &&& !(op is Add || op is Mul) ==> node->0.children == seq![l->0.id, r->0.id]
            }
            &&& (lhs.formula_facts is Some || rhs.formula_facts is Some) ==> combine_spec(
                op,
                lhs,
                rhs,
                debug,
            )->0.root_expr == node
        }),
{
}

/// Each operation leaves its mark at the end of the trace of rounding steps.
pub proof fn operations_leave_a_trace(
    op: ExprOp,
    lhs: ValueStateView,
    rhs: ValueStateView,
    debug: Seq<char>,
)
    requires
        combine_spec(op, lhs, rhs, debug) is Some,
    ensures
        ({
            let last = combine_spec(op, lhs, rhs, debug)->0.rounding_trace.last();
            &&& op is Add ==> last == "add"@
            &&& op is Sub ==> last == "sub"@
            &&& op is Mul ==> last == "mul"@
            &&& op is Div ==> last == "div/floor"@
            &&& op is Mod ==> last == "mod/floor"@
            &&& op is Shl ==> last == "shl/scale"@
            &&& op is Shr ==> last == "shr/floor"@
        }),
{
}

/// An operation keeps the steps of both operands, and adds its own.
pub proof fn operations_keep_the_steps(
    op: ExprOp,
    lhs: ValueStateView,
    rhs: ValueStateView,
    debug: Seq<char>,
    step: Seq<char>,
)
    requires
        combine_spec(op, lhs, rhs, debug) is Some,
    ensures
        ({
            let steps = combine_spec(op, lhs, rhs, debug)->0.rounding_trace;
            let left = lhs.formula_facts is Some && lhs.formula_facts->0.rounding_trace.contains(
                step,
            );
            let right = rhs.formula_facts is Some && rhs.formula_facts->0.rounding_trace.contains(
                step,
            );
            steps.drop_last().contains(step) <==> left || right
        }),
{
    let lt = trace_or_none(lhs.formula_facts);
    let rt = trace_or_none(rhs.formula_facts);
    let first = add_missing(Seq::empty(), lt, lt.len());
    let steps = combine_spec(op, lhs, rhs, debug)->0.rounding_trace;
    lemma_add_missing(Seq::empty(), lt, lt.len());
    lemma_add_missing(first, rt, rt.len());
    assert(lt.take(lt.len() as int) =~= lt);
    assert(rt.take(rt.len() as int) =~= rt);
    assert(steps.drop_last() =~= add_missing(first, rt, rt.len()));
}

/// A value that is put into a variable takes on the tags of its name, and gets the expression of the
/// variable where it has none. Where it has no formula at all it becomes a factor of that name, which
/// is above zero where its range is; otherwise only what is known of a factor of that name changes.
/// Nothing else about the value does.
pub proof fn variables_name_their_values(value: ValueStateView, name: Seq<char>, tag: FormulaTag)
    ensures
        ({
            let named = annotate_spec(value, name);
            let positive = value.interval.lower is Some && value.interval.lower->0@ > 0;
            let facts = named.formula_facts->0;
            &&& named.formula_facts is Some
            &&& named == (ValueStateView { formula_facts: named.formula_facts, ..value })
            &&& facts.tags.has_spec(tag) <==> tags_of_name(name).has_spec(tag) || has_tag(
                value.formula_facts,
                tag,
            )
            &&& facts.root_expr is Some
            &&& value.formula_facts is Some && value.formula_facts->0.root_expr is Some
                ==> facts.root_expr == value.formula_facts->0.root_expr
            &&& !(value.formula_facts is Some && value.formula_facts->0.root_expr is Some)
                ==> facts.root_expr->0.op is Var && facts.root_expr->0.debug == name
            &&& value.formula_facts is None || value.formula_facts->0.factors.len() == 0
                ==> facts.factors.len() == 1 && facts.factors[0].name == name
                && facts.factors[0].strict_positive == positive
            &&& value.formula_facts is Some && value.formula_facts->0.factors.len() > 0
                ==> facts.factors.len() == value.formula_facts->0.factors.len()
            &&& value.formula_facts is Some ==> facts.rounding_mode
                == value.formula_facts->0.rounding_mode && facts.rounding_conflict
                == value.formula_facts->0.rounding_conflict
        }),
{
    if let Some(facts) = value.formula_facts {
        lemma_find_id(facts.factors, var_id(name), 0);
    }
}

/// What the title of a risk of a denominator says, obligation by obligation.
pub proof fn denominators_are_titled_by_obligation(obligation: ObligationKind, clmm: bool)
    ensures
        obligation is NonZeroDivisor && clmm ==> denominator_title_spec(obligation, clmm)
            == "CLMM denominator may be zero on a reachable value-bearing path"@,
        obligation is NonZeroDivisor && !clmm ==> denominator_title_spec(obligation, clmm)
            == "Denominator may be zero on a reachable value-bearing path"@,
        obligation is IndependentFactorPositivity ==> denominator_title_spec(obligation, clmm)
            == "Denominator factors are not all independently proven positive"@,
{
}

/// Adding a tag or a role adds this one, and changes no other; none is there from the start.
pub proof fn tags_are_added_one_by_one(
    tags: TagSet,
    roles: RoleSet,
    tag: FormulaTag,
    other: FormulaTag,
    role: SemanticRole,
    another: SemanticRole,
)
    ensures
        tags.insert_spec(tag).has_spec(other) <==> tags.has_spec(other) || other == tag,
        roles.insert_spec(role).has_spec(another) <==> roles.has_spec(another) || another == role,
        !TagSet::empty_spec().has_spec(tag),
        !RoleSet::empty_spec().has_spec(role),
{
}

/// A formula with a factor that is like a price tells so.
pub proof fn price_like_factors_are_found(facts: &FormulaFacts, i: int, r: bool)
    requires
        call_ensures(FormulaFacts::any_price_like_factor, (facts,), r),
    ensures
        0 <= i < facts@.factors.len() && facts@.factors[i].tags.has_spec(FormulaTag::PriceLike)
            ==> r,
        facts@.factors.len() == 0 ==> !r,
{
}

} // verus!
