//! Descriptions: how expressions, literals, ranges and operators are written in messages.

use crate::ast::{BinOp, Exp, Function, UnannotatedExp, Value};
use crate::domain::interval::Interval;
use crate::text::{decimal, joined};
use crate::transfer::describe::{describe_all_spec, describe_spec, describe_value_spec};
use vstd::prelude::*;

verus! {

/// Operators are written as in source code.
pub proof fn operators_are_written_as_in_source(op: BinOp)
    ensures
        op is Add ==> op.symbol_spec() == "+"@,
        op is Sub ==> op.symbol_spec() == "-"@,
        op is Mul ==> op.symbol_spec() == "*"@,
        op is Mod ==> op.symbol_spec() == "%"@,
        op is Div ==> op.symbol_spec() == "/"@,
        op is BitOr ==> op.symbol_spec() == "|"@,
        op is BitAnd ==> op.symbol_spec() == "&"@,
        op is Xor ==> op.symbol_spec() == "^"@,
        op is Shl ==> op.symbol_spec() == "<<"@,
        op is Shr ==> op.symbol_spec() == ">>"@,
        op is And ==> op.symbol_spec() == "&&"@,
        op is Or ==> op.symbol_spec() == "||"@,
        op is Eq ==> op.symbol_spec() == "=="@,
        op is Neq ==> op.symbol_spec() == "!="@,
        op is Lt ==> op.symbol_spec() == "<"@,
        op is Gt ==> op.symbol_spec() == ">"@,
        op is Le ==> op.symbol_spec() == "<="@,
        op is Ge ==> op.symbol_spec() == ">="@,
        op is Range ==> op.symbol_spec() == ".."@,
        op is Implies ==> op.symbol_spec() == "==>"@,
        op is Iff ==> op.symbol_spec() == "<==>"@,
{
}

/// Literals are written with their type.
pub proof fn literals_are_written_with_their_type(value: Value)
    ensures
        match value {
            Value::U8(v) => describe_value_spec(value) == decimal(v as nat) + "u8"@,
            Value::U16(v) => describe_value_spec(value) == decimal(v as nat) + "u16"@,
            Value::U32(v) => describe_value_spec(value) == decimal(v as nat) + "u32"@,
            Value::U64(v) => describe_value_spec(value) == decimal(v as nat) + "u64"@,
            Value::U128(v) => describe_value_spec(value) == decimal(v as nat) + "u128"@,
            Value::U256(v) => describe_value_spec(value) == decimal(v@) + "u256"@,
            Value::Bool(v) => describe_value_spec(value) == if v {
                "true"@
            } else {
                "false"@
            },
            Value::Other => describe_value_spec(value) == "value"@,
        },
{
}

/// Ranges are written as the one number that they hold, by their two ends, or by the end that is
/// known.
pub proof fn ranges_are_written_by_their_ends(interval: Interval)
    ensures
        ({
            let text = interval.describe_spec();
            let (lo, hi) = (interval.lower, interval.upper);
            &&& interval.bottom ==> text == "unreachable"@
            &&& !interval.bottom ==> {
                &&& lo is Some && hi is Some && lo == hi ==> text == decimal(lo->0@)
                &&& lo is Some && hi is Some && lo != hi ==> text == "["@ + decimal(lo->0@)
                    + ", "@ + decimal(hi->0@) + "]"@
                &&& lo is Some && hi is None ==> text == ">= "@ + decimal(lo->0@)
                &&& lo is None && hi is Some ==> text == "<= "@ + decimal(hi->0@)
                &&& lo is None && hi is None ==> text == "unknown"@
            }
        }),
{
}

proof fn lemma_described(f: Function, es: Seq<Exp>, n: nat, i: int)
    requires
        0 <= i < n <= es.len(),
    ensures
        describe_all_spec(f, es, n).len() == n,
        describe_all_spec(f, es, n)[i] == describe_spec(f, es[i]),
    decreases n,
{
    if n > 1 {
        lemma_described(
            f,
            es,
            (n - 1) as nat,
            if i < n - 1 {
                i
            } else {
                0
            },
        );
    } else {
        assert(describe_all_spec(f, es, 0).len() == 0);
    }
}

/// Whether texts are those of expressions, one by one.
pub open spec fn are_texts_of(texts: Seq<Seq<char>>, f: Function, es: Seq<Exp>) -> bool {
    texts.len() == es.len() && forall|i: int|
        0 <= i < es.len() ==> #[trigger] texts[i] == describe_spec(f, es[i])
}

/// Expressions are written by their parts: variables by name, operations with the operator between
/// the operands, calls with their arguments in order; casts and references like what they are of.
pub proof fn expressions_are_written_by_their_parts(f: Function, e: Exp, texts: Seq<Seq<char>>)
    ensures
        match e.value {
            UnannotatedExp::Move(var)
            | UnannotatedExp::Copy(var)
            | UnannotatedExp::BorrowLocal(var) => var.index < f.vars@.len() ==> describe_spec(f, e)
                == f.vars@[var.index as int].name@,
            UnannotatedExp::Constant(name) => describe_spec(f, e) == name@,
            UnannotatedExp::Freeze(inner)
            | UnannotatedExp::Dereference(inner)
            | UnannotatedExp::Borrow(inner, _)
            | UnannotatedExp::Cast(inner, _) => describe_spec(f, e) == describe_spec(f, *inner),
            UnannotatedExp::Not(inner) => describe_spec(f, e) == "!"@ + describe_spec(f, *inner),
            UnannotatedExp::BinopExp(lhs, op, rhs) => describe_spec(f, e) == describe_spec(f, *lhs)
                + " "@ + op.symbol_spec() + " "@ + describe_spec(f, *rhs),
            UnannotatedExp::ModuleCall(call) => are_texts_of(texts, f, call.arguments@)
                ==> describe_spec(f, e) == call.callee.module.text@ + "::"@ + call.callee.name@
                + "("@ + joined(texts, ", "@) + ")"@,
            UnannotatedExp::Multiple(values) => are_texts_of(texts, f, values@) ==> describe_spec(
                f,
                e,
            ) == "("@ + joined(texts, ", "@) + ")"@,
            UnannotatedExp::Unit => describe_spec(f, e) == "()"@,
            UnannotatedExp::Pack(_, text)
            | UnannotatedExp::PackVariant(_, text)
            | UnannotatedExp::Vector(_, text)
            | UnannotatedExp::Unreachable(text)
            | UnannotatedExp::UnresolvedError(text) => describe_spec(f, e) == text@,
            UnannotatedExp::Value(value) => describe_spec(f, e) == describe_value_spec(value),
            UnannotatedExp::ErrorConstant => describe_spec(f, e) == "error_constant"@,
        },
{
    let list = match e.value {
        UnannotatedExp::ModuleCall(call) => call.arguments@,
        UnannotatedExp::Multiple(values) => values@,
        _ => Seq::empty(),
    };
    if are_texts_of(texts, f, list) {
        let all = describe_all_spec(f, list, list.len());
        if list.len() > 0 {
            lemma_described(f, list, list.len(), 0);
        } else {
            assert(all.len() == 0);
        }
        assert forall|i: int| 0 <= i < list.len() implies all[i] == texts[i] by {
            lemma_described(f, list, list.len(), i);
        }
        assert(all =~= texts);
    }
}

} // verus!
