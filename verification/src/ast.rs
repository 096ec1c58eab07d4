//! The control-flow representation of a Move program that the analysis reads.

use crate::model::Plain;
use crate::u256::U256;
use vstd::prelude::*;

verus! {

/// A place in a source file, named by the hash of the file's contents.
#[derive(Clone, Copy, Debug, PartialEq, Eq, Structural)]
pub struct Loc {
    pub file_hash: U256,
    pub start: u32,
    pub end: u32,
}

impl Plain for Loc {
    fn equal(&self, other: &Self) -> (r: bool) {
        *self == *other
    }
}

/// A variable of a function: its place in the function's table of variables.
#[derive(Clone, Copy, Debug, PartialEq, Eq, Structural)]
pub struct Var {
    pub index: usize,
}

#[derive(Clone, Copy, Debug, PartialEq, Eq, Structural)]
pub enum BuiltinTypeName {
    Address,
    Signer,
    U8,
    U16,
    U32,
    U64,
    U128,
    U256,
    Bool,
    Vector,
}

/// A type that is not a reference.
#[derive(Clone, Copy, Debug, PartialEq, Eq, Structural)]
pub enum BaseType {
    Builtin(BuiltinTypeName),
    /// A struct, an enum, a type parameter or an unresolved type.
    Other,
}

#[derive(Clone, Copy, Debug, PartialEq, Eq, Structural)]
pub enum SingleType {
    Base(BaseType),
    Ref(bool, BaseType),
}

#[derive(Debug)]
pub enum Type {
    Unit,
    Single(SingleType),
    Multiple(Vec<SingleType>),
}

/// A literal.
#[derive(Clone, Copy, Debug, PartialEq, Eq, Structural)]
pub enum Value {
    U8(u8),
    U16(u16),
    U32(u32),
    U64(u64),
    U128(u128),
    U256(U256),
    Bool(bool),
    /// An address or a vector.
    Other,
}

#[derive(Clone, Copy, Debug, PartialEq, Eq, Structural)]
pub enum BinOp {
    Add,
    Sub,
    Mul,
    Mod,
    Div,
    BitOr,
    BitAnd,
    Xor,
    Shl,
    Shr,
    Range,
    Implies,
    Iff,
    And,
    Or,
    Eq,
    Neq,
    Lt,
    Gt,
    Le,
    Ge,
}

#[derive(Debug)]
pub struct ModuleIdent {
    pub address: U256,
    pub name: String,
    /// How the module is written in messages, address included.
    pub text: String,
}

#[derive(Debug)]
pub struct FunctionKey {
    pub module: ModuleIdent,
    pub name: String,
}

#[derive(Debug)]
pub struct ModuleCall {
    pub callee: FunctionKey,
    pub arguments: Vec<Exp>,
}

#[derive(Debug)]
pub struct Exp {
    pub ty: Type,
    pub loc: Loc,
    pub value: UnannotatedExp,
}

#[derive(Debug)]
pub enum UnannotatedExp {
    Unit,
    Value(Value),
    Move(Var),
    Copy(Var),
    Constant(String),
    ErrorConstant,
    ModuleCall(Box<ModuleCall>),
    Freeze(Box<Exp>),
    Dereference(Box<Exp>),
    /// Logical negation.
    Not(Box<Exp>),
    BinopExp(Box<Exp>, BinOp, Box<Exp>),
    Cast(Box<Exp>, BuiltinTypeName),
    /// Construction of a struct: the field values, and how the whole is written in messages.
    Pack(Vec<Exp>, String),
    /// Construction of an enum variant: the field values, and how the whole is written in messages.
    PackVariant(Vec<Exp>, String),
    /// A vector literal: the elements, and how the whole is written in messages.
    Vector(Vec<Exp>, String),
    Multiple(Vec<Exp>),
    /// A borrowed field of the inner expression.
    Borrow(Box<Exp>, String),
    BorrowLocal(Var),
    Unreachable(String),
    UnresolvedError(String),
}

#[derive(Clone, Copy, Debug, PartialEq, Eq, Structural)]
pub enum LValue {
    Ignore,
    Var(Var),
    Unpack,
    UnpackVariant,
}

#[derive(Debug)]
pub struct Command {
    pub loc: Loc,
    pub value: CommandKind,
}

#[derive(Debug)]
pub enum CommandKind {
    Assign(Vec<LValue>, Exp),
    Mutate(Exp, Exp),
    Abort(Exp),
    Return(Exp),
    IgnoreAndPop(Exp),
    Jump,
    JumpIf(Exp, usize, usize),
    VariantSwitch(Exp),
    Break,
    Continue,
}

/// A basic block, with the labels of the blocks before and after it in ascending order.
#[derive(Debug)]
pub struct Block {
    pub commands: Vec<Command>,
    pub predecessors: Vec<usize>,
    pub successors: Vec<usize>,
}

/// A body as a control-flow graph; a label is a block's place in `blocks`.
#[derive(Debug)]
pub struct Body {
    pub start: usize,
    pub blocks: Vec<Block>,
}

#[derive(Debug)]
pub enum FunctionBody {
    Native,
    Defined(Body),
}

#[derive(Clone, Copy, Debug, PartialEq, Eq, Structural)]
pub enum Visibility {
    Internal,
    Friend,
    Public,
}

/// A parameter or local of a function.
#[derive(Debug)]
pub struct Local {
    pub name: String,
    pub ty: SingleType,
}

#[derive(Clone, Copy, Debug, PartialEq, Eq, Structural)]
pub struct Parameter {
    pub var: Var,
    pub ty: SingleType,
}

/// The components of a path, from the root on.
#[derive(Clone, Debug, PartialEq, Eq)]
pub struct SourcePath {
    pub components: Vec<String>,
}

#[derive(Debug)]
pub struct Function {
    pub key: FunctionKey,
    pub loc: Loc,
    /// The canonical path of the file that holds the function, where files are known.
    pub source_path: Option<SourcePath>,
    pub visibility: Visibility,
    pub is_entry: bool,
    pub parameters: Vec<Parameter>,
    pub vars: Vec<Local>,
    pub body: FunctionBody,
}

/// The functions of a program, in the order of their keys.
#[derive(Debug)]
pub struct Program {
    pub functions: Vec<Function>,
}

/// Whether two keys name the same function.
pub open spec fn same_key_spec(a: FunctionKey, b: FunctionKey) -> bool {
    a.module.address == b.module.address && a.module.name@ == b.module.name@ && a.name@ == b.name@
}

pub fn same_key(a: &FunctionKey, b: &FunctionKey) -> (r: bool)
    ensures
        r == same_key_spec(*a, *b),
{
    a.module.address == b.module.address && a.module.name == b.module.name && a.name == b.name
}

impl BinOp {
    /// How the operator is written in source code.
    pub open spec fn symbol_spec(self) -> Seq<char> {
        match self {
            BinOp::Add => "+"@,
            BinOp::Sub => "-"@,
            BinOp::Mul => "*"@,
            BinOp::Mod => "%"@,
            BinOp::Div => "/"@,
            BinOp::BitOr => "|"@,
            BinOp::BitAnd => "&"@,
            BinOp::Xor => "^"@,
            BinOp::Shl => "<<"@,
            BinOp::Shr => ">>"@,
            BinOp::Range => ".."@,
            BinOp::Implies => "==>"@,
            BinOp::Iff => "<==>"@,
            BinOp::And => "&&"@,
            BinOp::Or => "||"@,
            BinOp::Eq => "=="@,
            BinOp::Neq => "!="@,
            BinOp::Lt => "<"@,
            BinOp::Gt => ">"@,
            BinOp::Le => "<="@,
            BinOp::Ge => ">="@,
        }
    }

    pub fn symbol(self) -> (r: &'static str)
        ensures
            r@ == self.symbol_spec(),
    {
        match self {
            BinOp::Add => "+",
            BinOp::Sub => "-",
            BinOp::Mul => "*",
            BinOp::Mod => "%",
            BinOp::Div => "/",
            BinOp::BitOr => "|",
            BinOp::BitAnd => "&",
            BinOp::Xor => "^",
            BinOp::Shl => "<<",
            BinOp::Shr => ">>",
            BinOp::Range => "..",
            BinOp::Implies => "==>",
            BinOp::Iff => "<==>",
            BinOp::And => "&&",
            BinOp::Or => "||",
            BinOp::Eq => "==",
            BinOp::Neq => "!=",
            BinOp::Lt => "<",
            BinOp::Gt => ">",
            BinOp::Le => "<=",
            BinOp::Ge => ">=",
        }
    }
}

impl Function {
    /// The name of a variable; empty for one that the function does not declare.
    pub open spec fn var_name_spec(self, var: Var) -> Seq<char> {
        if var.index < self.vars@.len() {
            self.vars@[var.index as int].name@
        } else {
            Seq::empty()
        }
    }

    pub fn var_name(&self, var: Var) -> (r: String)
        ensures
            r@ == self.var_name_spec(var),
    {
        if var.index < self.vars.len() {
            self.vars[var.index].name.clone()
        } else {
            String::new()
        }
    }
}

} // verus!
