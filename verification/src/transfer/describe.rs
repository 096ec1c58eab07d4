//! How expressions are written in messages, and what can be read off them directly.

use crate::ast::{Exp, Function, Loc, UnannotatedExp, Value, Var};
use crate::model::views;
use crate::text::{decimal, join, joined, write_u128, write_u256};
use vstd::prelude::*;

verus! {

pub open spec fn describe_value_spec(value: Value) -> Seq<char> {
    match value {
        Value::U8(v) => decimal(v as nat) + "u8"@,
        Value::U16(v) => decimal(v as nat) + "u16"@,
        Value::U32(v) => decimal(v as nat) + "u32"@,
        Value::U64(v) => decimal(v as nat) + "u64"@,
        Value::U128(v) => decimal(v as nat) + "u128"@,
        Value::U256(v) => decimal(v@) + "u256"@,
        Value::Bool(v) => if v {
            "true"@
        } else {
            "false"@
        },
        Value::Other => "value"@,
    }
}

fn with_suffix(number: String, suffix: &str) -> (r: String)
    ensures
        r@ == number@ + suffix@,
{
    let mut r: String = number;
    r.append(suffix);
    r
}

pub fn describe_value(value: &Value) -> (r: String)
    ensures
        r@ == describe_value_spec(*value),
{
    match value {
        Value::U8(v) => with_suffix(write_u128(*v as u128), "u8"),
        Value::U16(v) => with_suffix(write_u128(*v as u128), "u16"),
        Value::U32(v) => with_suffix(write_u128(*v as u128), "u32"),
        Value::U64(v) => with_suffix(write_u128(*v as u128), "u64"),
        Value::U128(v) => with_suffix(write_u128(*v), "u128"),
        Value::U256(v) => with_suffix(write_u256(*v), "u256"),
        Value::Bool(v) => if *v {
            "true".to_owned()
        } else {
            "false".to_owned()
        },
        Value::Other => "value".to_owned(),
    }
}

/// How an expression is written in messages.
pub open spec fn describe_spec(f: Function, e: Exp) -> Seq<char>
    decreases e, 0nat,
{
    match e.value {
        UnannotatedExp::Value(value) => describe_value_spec(value),
        UnannotatedExp::Move(var) | UnannotatedExp::Copy(var) | UnannotatedExp::BorrowLocal(var) =>
            f.var_name_spec(var),
        UnannotatedExp::Constant(name) => name@,
        UnannotatedExp::ErrorConstant => "error_constant"@,
        UnannotatedExp::Freeze(inner) => describe_spec(f, *inner),
        UnannotatedExp::Dereference(inner) => describe_spec(f, *inner),
        UnannotatedExp::Borrow(inner, _) => describe_spec(f, *inner),
        UnannotatedExp::Cast(inner, _) => describe_spec(f, *inner),
        UnannotatedExp::Not(inner) => "!"@ + describe_spec(f, *inner),
        UnannotatedExp::BinopExp(lhs, op, rhs) => describe_spec(f, *lhs) + " "@ + op.symbol_spec()
            + " "@ + describe_spec(f, *rhs),
        UnannotatedExp::ModuleCall(call) => call.callee.module.text@ + "::"@ + call.callee.name@
            + "("@ + joined(
            describe_all_spec(f, call.arguments@, call.arguments@.len()),
            ", "@,
        ) + ")"@,
        UnannotatedExp::Multiple(values) => "("@ + joined(
            describe_all_spec(f, values@, values@.len()),
            ", "@,
        ) + ")"@,
        UnannotatedExp::Unit => "()"@,
        UnannotatedExp::Pack(_, text) => text@,
        UnannotatedExp::PackVariant(_, text) => text@,
        UnannotatedExp::Vector(_, text) => text@,
        UnannotatedExp::Unreachable(text) => text@,
        UnannotatedExp::UnresolvedError(text) => text@,
    }
}

/// How the first `n` of a list of expressions are written.
pub open spec fn describe_all_spec(f: Function, es: Seq<Exp>, n: nat) -> Seq<Seq<char>>
    decreases es, n,
{
    if n == 0 || n > es.len() {
        Seq::empty()
    } else {
        describe_all_spec(f, es, (n - 1) as nat).push(describe_spec(f, es[n - 1]))
    }
}

pub fn describe(f: &Function, e: &Exp) -> (r: String)
    ensures
        r@ == describe_spec(*f, *e),
    decreases *e,
{
    match &e.value {
        UnannotatedExp::Value(value) => describe_value(value),
        UnannotatedExp::Move(var) | UnannotatedExp::Copy(var) | UnannotatedExp::BorrowLocal(
            var,
        ) => f.var_name(*var),
        UnannotatedExp::Constant(name) => name.clone(),
        UnannotatedExp::ErrorConstant => "error_constant".to_owned(),
        UnannotatedExp::Freeze(inner) => describe(f, inner),
        UnannotatedExp::Dereference(inner) => describe(f, inner),
        UnannotatedExp::Borrow(inner, _) => describe(f, inner),
        UnannotatedExp::Cast(inner, _) => describe(f, inner),
        UnannotatedExp::Not(inner) => {
            let mut r: String = "!".to_owned();
            r.append(describe(f, inner).as_str());
            r
        },
        UnannotatedExp::BinopExp(lhs, op, rhs) => {
            let mut r: String = describe(f, lhs);
            r.append(" ");
            r.append(op.symbol());
            r.append(" ");
            r.append(describe(f, rhs).as_str());
            r
        },
        UnannotatedExp::ModuleCall(call) => {
            proof {
                lemma_arguments_smaller(*e);
            }
            let arguments: Vec<String> = describe_all(f, &call.arguments);
            let mut r: String = call.callee.module.text.clone();
            r.append("::");
            r.append(call.callee.name.as_str());
            r.append("(");
            r.append(join(&arguments, ", ").as_str());
            r.append(")");
            r
        },
        UnannotatedExp::Multiple(values) => {
            proof {
                lemma_elements_smaller(*e);
            }
            let values: Vec<String> = describe_all(f, values);
            let mut r: String = "(".to_owned();
            r.append(join(&values, ", ").as_str());
            r.append(")");
            r
        },
        UnannotatedExp::Unit => "()".to_owned(),
        UnannotatedExp::Pack(_, text) => text.clone(),
        UnannotatedExp::PackVariant(_, text) => text.clone(),
        UnannotatedExp::Vector(_, text) => text.clone(),
        UnannotatedExp::Unreachable(text) => text.clone(),
        UnannotatedExp::UnresolvedError(text) => text.clone(),
    }
}

fn describe_all(f: &Function, es: &Vec<Exp>) -> (r: Vec<String>)
    ensures
        views(r@) == describe_all_spec(*f, es@, es@.len()),
    decreases es@,
{
    let mut r: Vec<String> = Vec::new();
    let mut i: usize = 0;
    assert(views(r@) =~= describe_all_spec(*f, es@, 0));
    while i < es.len()
        invariant
            i <= es@.len(),
            views(r@) == describe_all_spec(*f, es@, i as nat),
        decreases es@.len() - i,
    {
        let ghost start = r@;
        assert(decreases_to!(es@ => es@[i as int]));
        let text: String = describe(f, &es[i]);
        r.push(text);
        assert(views(r@) =~= views(start).push(text@));
        i = i + 1;
    }
    r
}

/// The arguments of a call are smaller than the call.
pub proof fn lemma_arguments_smaller(e: Exp)
    requires
        e.value is ModuleCall,
    ensures
        decreases_to!(e => e.value->ModuleCall_0.arguments@),
{
    assert(decreases_to!(e => e.value));
    assert(decreases_to!(e.value => e.value->ModuleCall_0));
    assert(decreases_to!(*e.value->ModuleCall_0 => e.value->ModuleCall_0.arguments));
    assert(decreases_to!(e.value->ModuleCall_0.arguments => e.value->ModuleCall_0.arguments@));
}

/// The parts of an expression that is a list are smaller than the expression.
pub proof fn lemma_elements_smaller(e: Exp)
    ensures
        e.value is Multiple ==> decreases_to!(e => e.value->Multiple_0@),
        e.value is Pack ==> decreases_to!(e => e.value->Pack_0@),
        e.value is PackVariant ==> decreases_to!(e => e.value->PackVariant_0@),
        e.value is Vector ==> decreases_to!(e => e.value->Vector_0@),
{
    assert(decreases_to!(e => e.value));
    if e.value is Multiple {
        assert(decreases_to!(e.value => e.value->Multiple_0));
        assert(decreases_to!(e.value->Multiple_0 => e.value->Multiple_0@));
    }
    if e.value is Pack {
        assert(decreases_to!(e.value => e.value->Pack_0));
        assert(decreases_to!(e.value->Pack_0 => e.value->Pack_0@));
    }
    if e.value is PackVariant {
        assert(decreases_to!(e.value => e.value->PackVariant_0));
        assert(decreases_to!(e.value->PackVariant_0 => e.value->PackVariant_0@));
    }
    if e.value is Vector {
        assert(decreases_to!(e.value => e.value->Vector_0));
        assert(decreases_to!(e.value->Vector_0 => e.value->Vector_0@));
    }
}

/// The variable that an expression reads, through casts.
pub open spec fn extract_var_spec(e: Exp) -> Option<Var>
    decreases e,
{
    match e.value {
        UnannotatedExp::Move(var) | UnannotatedExp::Copy(var) | UnannotatedExp::BorrowLocal(var) =>
            Some(var),
        UnannotatedExp::Cast(inner, _) => extract_var_spec(*inner),
        _ => None,
    }
}

pub fn extract_var(e: &Exp) -> (r: Option<Var>)
    ensures
        r == extract_var_spec(*e),
    decreases *e,
{
    match &e.value {
        UnannotatedExp::Move(var) | UnannotatedExp::Copy(var) | UnannotatedExp::BorrowLocal(
            var,
        ) => Some(*var),
        UnannotatedExp::Cast(inner, _) => extract_var(inner),
        _ => None,
    }
}

/// The path of fields that an expression borrows.
pub open spec fn field_path_spec(e: Exp) -> Option<Seq<char>>
    decreases e,
{
    match e.value {
        UnannotatedExp::Borrow(inner, field) => match field_path_spec(*inner) {
            Some(path) => Some(path + "."@ + field@),
            None => Some(field@),
        },
        _ => None,
    }
}

/// Where an expression borrows a field, the place and the path of fields.
pub fn borrow_field_name(e: &Exp) -> (r: Option<(Loc, String)>)
    ensures
        match r {
            Some((loc, path)) => loc == e.loc && field_path_spec(*e) == Some(path@),
            None => field_path_spec(*e) is None,
        },
    decreases *e,
{
    match &e.value {
        UnannotatedExp::Borrow(inner, field) => {
            let text: String = match borrow_field_name(inner) {
                Some((_, path)) => {
                    let mut text: String = path;
                    text.append(".");
                    text.append(field.as_str());
                    text
                },
                None => field.clone(),
            };
            Some((e.loc, text))
        },
        _ => None,
    }
}

} // verus!
