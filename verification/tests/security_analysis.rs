//! The analysis as a whole, on small Move packages. A reader for the part of Move that the
//! packages use lowers them to control-flow graphs.

use std::collections::BTreeMap;
use sui_move_analyzer::ast::{
    BaseType, BinOp, Block, Body, BuiltinTypeName, Command, CommandKind, Exp, Function,
    FunctionBody, FunctionKey, LValue, Loc, Local, ModuleCall, ModuleIdent, Parameter, Program,
    SingleType, SourcePath, Type, UnannotatedExp, Value, Var, Visibility,
};
use sui_move_analyzer::domain::risk::RiskKind;
use sui_move_analyzer::options::{AnalysisScope, SecurityMathMode};
use sui_move_analyzer::package::{
    PackageAnalysisMetrics, PackageSecurityAnalysis, SourceFile,
};
use sui_move_analyzer::report::{SecurityFinding, Severity};
use sui_move_analyzer::scope::{
    PackageEntry, PackageScopeRoots, PackageSourceScope, scope_roots_from_graph,
};
use sui_move_analyzer::transfer::program::{
    ProgramAnalyzer, analyze_cfgir_program, analyze_cfgir_program_findings,
};
use sui_move_analyzer::u256::U256;

const STEPS: u64 = 1_000_000;

// ---- Words ----

#[derive(Clone, Debug, PartialEq)]
enum Word {
    Name(String),
    Number(U256, Option<BuiltinTypeName>),
    Sign(&'static str),
    End,
}

const SIGNS: [&str; 33] = [
    "<<", ">>", "<=", ">=", "==", "!=", "&&", "||", "::", "+", "-", "*", "/", "%", "&", "|", "^",
    "<", ">", "=", "!", "(", ")", "{", "}", ",", ";", ":", ".", "[", "]", "#", "@",
];

fn times_plus(n: U256, factor: u128, digit: u128) -> U256 {
    n.checked_mul(U256::from_u128(factor))
        .and_then(|m| m.checked_add(U256::from_u128(digit)))
        .expect("a literal fits")
}

fn builtin(name: &str) -> Option<BuiltinTypeName> {
    Some(match name {
        "u8" => BuiltinTypeName::U8,
        "u16" => BuiltinTypeName::U16,
        "u32" => BuiltinTypeName::U32,
        "u64" => BuiltinTypeName::U64,
        "u128" => BuiltinTypeName::U128,
        "u256" => BuiltinTypeName::U256,
        "bool" => BuiltinTypeName::Bool,
        _ => return None,
    })
}

fn words(source: &str) -> Vec<(Word, usize, usize)> {
    let bytes = source.as_bytes();
    let mut out = vec![];
    let mut i = 0;
    while i < bytes.len() {
        let c = bytes[i];
        if c.is_ascii_whitespace() {
            i += 1;
        } else if c == b'/' && i + 1 < bytes.len() && bytes[i + 1] == b'/' {
            while i < bytes.len() && bytes[i] != b'\n' {
                i += 1;
            }
        } else if c.is_ascii_digit() {
            let start = i;
            let hex = c == b'0' && i + 1 < bytes.len() && bytes[i + 1] == b'x';
            if hex {
                i += 2;
            }
            let mut n = U256::zero();
            while i < bytes.len() {
                let d = match bytes[i] {
                    b'0'..=b'9' => bytes[i] - b'0',
                    b'a'..=b'f' if hex => bytes[i] - b'a' + 10,
                    _ => break,
                };
                n = times_plus(n, if hex { 16 } else { 10 }, d as u128);
                i += 1;
            }
            let suffix = i;
            while i < bytes.len() && (bytes[i].is_ascii_alphanumeric() || bytes[i] == b'_') {
                i += 1;
            }
            out.push((Word::Number(n, builtin(&source[suffix..i])), start, i));
        } else if c.is_ascii_alphabetic() || c == b'_' {
            let start = i;
            while i < bytes.len() && (bytes[i].is_ascii_alphanumeric() || bytes[i] == b'_') {
                i += 1;
            }
            out.push((Word::Name(source[start..i].to_string()), start, i));
        } else {
            let sign = SIGNS
                .iter()
                .find(|sign| source[i..].starts_with(**sign))
                .unwrap_or_else(|| panic!("unknown sign at {}", &source[i..]));
            out.push((Word::Sign(sign), i, i + sign.len()));
            i += sign.len();
        }
    }
    out.push((Word::End, bytes.len(), bytes.len()));
    out
}

// ---- Syntax ----

#[derive(Clone, Debug)]
struct Term {
    span: (usize, usize),
    kind: TermKind,
}

#[derive(Clone, Debug)]
enum TermKind {
    Number(U256, Option<BuiltinTypeName>),
    Bool(bool),
    Var(String),
    Binary(BinOp, Box<Term>, Box<Term>),
    Not(Box<Term>),
    Cast(Box<Term>, BuiltinTypeName),
    Call(Option<String>, String, Vec<Term>),
    Tuple(Vec<Term>),
    Field(String, String),
    Borrow(String),
    Deref(Box<Term>),
    If(Box<Term>, Vec<Statement>, Vec<Statement>),
}

#[derive(Clone, Debug)]
enum Statement {
    Let(Vec<String>, Term),
    Put(String, Term),
    PutField(Term, Term),
    Assert(Term),
    Return(Term),
    Abort(Term),
    While(Term, Vec<Statement>),
    Do(Term),
    /// The value of a block.
    Give(Term),
}

#[derive(Clone, Debug)]
struct Fun {
    span: (usize, usize),
    file: usize,
    module: String,
    name: String,
    public: bool,
    entry: bool,
    native: bool,
    parameters: Vec<(String, SingleType)>,
    returned: Vec<SingleType>,
    body: Vec<Statement>,
}

struct Reader {
    words: Vec<(Word, usize, usize)>,
    at: usize,
}

impl Reader {
    fn peek(&self) -> &Word {
        &self.words[self.at].0
    }

    fn start(&self) -> usize {
        self.words[self.at].1
    }

    fn end(&self) -> usize {
        self.words[self.at - 1].2
    }

    fn sign(&mut self, sign: &str) -> bool {
        let found = matches!(self.peek(), Word::Sign(s) if *s == sign);
        if found {
            self.at += 1;
        }
        found
    }

    fn expect(&mut self, sign: &str) {
        if !self.sign(sign) {
            panic!("expected {sign}, found {:?}", &self.words[self.at]);
        }
    }

    fn word(&mut self, name: &str) -> bool {
        let found = matches!(self.peek(), Word::Name(n) if n == name);
        if found {
            self.at += 1;
        }
        found
    }

    fn name(&mut self) -> String {
        match self.peek().clone() {
            Word::Name(name) => {
                self.at += 1;
                name
            }
            other => panic!("expected a name, found {other:?}"),
        }
    }

    fn single_type(&mut self) -> SingleType {
        let reference = self.sign("&");
        let mutable = reference && self.word("mut");
        let name = self.name();
        while self.sign("::") {
            self.name();
        }
        let base = match builtin(&name) {
            Some(builtin) => BaseType::Builtin(builtin),
            None => BaseType::Other,
        };
        if reference {
            SingleType::Ref(mutable, base)
        } else {
            SingleType::Base(base)
        }
    }

    fn types(&mut self) -> Vec<SingleType> {
        if self.sign("(") {
            let mut types = vec![];
            while !self.sign(")") {
                types.push(self.single_type());
                self.sign(",");
            }
            types
        } else {
            vec![self.single_type()]
        }
    }

    fn term(&mut self) -> Term {
        self.binary(0)
    }

    fn binary(&mut self, level: usize) -> Term {
        const LEVELS: [&[(&str, BinOp)]; 9] = [
            &[("||", BinOp::Or)],
            &[("&&", BinOp::And)],
            &[
                ("==", BinOp::Eq),
                ("!=", BinOp::Neq),
                ("<=", BinOp::Le),
                (">=", BinOp::Ge),
                ("<", BinOp::Lt),
                (">", BinOp::Gt),
            ],
            &[("|", BinOp::BitOr)],
            &[("^", BinOp::Xor)],
            &[("&", BinOp::BitAnd)],
            &[("<<", BinOp::Shl), (">>", BinOp::Shr)],
            &[("+", BinOp::Add), ("-", BinOp::Sub)],
            &[("*", BinOp::Mul), ("/", BinOp::Div), ("%", BinOp::Mod)],
        ];
        if level == LEVELS.len() {
            return self.unary();
        }
        let start = self.start();
        let mut left = self.binary(level + 1);
        'more: loop {
            for (sign, op) in LEVELS[level] {
                if self.sign(sign) {
                    let right = self.binary(level + 1);
                    left = Term {
                        span: (start, self.end()),
                        kind: TermKind::Binary(*op, Box::new(left), Box::new(right)),
                    };
                    continue 'more;
                }
            }
            return left;
        }
    }

    fn unary(&mut self) -> Term {
        let start = self.start();
        let kind = if self.sign("!") {
            TermKind::Not(Box::new(self.unary()))
        } else if self.sign("*") {
            TermKind::Deref(Box::new(self.unary()))
        } else if self.sign("&") {
            TermKind::Borrow(self.name())
        } else if self.word("if") {
            self.expect("(");
            let cond = self.term();
            self.expect(")");
            let then = self.block();
            let other = if self.word("else") {
                if matches!(self.peek(), Word::Name(n) if n == "if") {
                    vec![Statement::Give(self.unary())]
                } else {
                    self.block()
                }
            } else {
                vec![]
            };
            TermKind::If(Box::new(cond), then, other)
        } else if self.sign("(") {
            let mut parts = vec![];
            let mut tuple = false;
            while !self.sign(")") {
                let part = self.term();
                if self.word("as") {
                    let name = self.name();
                    let to = builtin(&name).expect("a type to cast to");
                    parts.push(Term {
                        span: (part.span.0, self.end()),
                        kind: TermKind::Cast(Box::new(part), to),
                    });
                } else {
                    parts.push(part);
                }
                tuple |= self.sign(",");
            }
            if parts.len() == 1 && !tuple {
                return parts.remove(0);
            }
            TermKind::Tuple(parts)
        } else {
            match self.peek().clone() {
                Word::Number(n, suffix) => {
                    self.at += 1;
                    TermKind::Number(n, suffix)
                }
                Word::Name(_) => {
                    let first = self.name();
                    if first == "true" || first == "false" {
                        TermKind::Bool(first == "true")
                    } else if self.sign(".") {
                        TermKind::Field(first, self.name())
                    } else {
                        let (module, name) = if self.sign("::") {
                            (Some(first), self.name())
                        } else {
                            (None, first)
                        };
                        if self.sign("(") {
                            let mut arguments = vec![];
                            while !self.sign(")") {
                                arguments.push(self.term());
                                self.sign(",");
                            }
                            TermKind::Call(module, name, arguments)
                        } else {
                            TermKind::Var(name)
                        }
                    }
                }
                other => panic!("expected a term, found {other:?}"),
            }
        };
        Term {
            span: (start, self.end()),
            kind,
        }
    }

    fn block(&mut self) -> Vec<Statement> {
        self.expect("{");
        let mut out = vec![];
        while !self.sign("}") {
            let statement = if self.word("let") {
                let names = if self.sign("(") {
                    let mut names = vec![];
                    while !self.sign(")") {
                        names.push(self.name());
                        self.sign(",");
                    }
                    names
                } else {
                    vec![self.name()]
                };
                if self.sign(":") {
                    self.types();
                }
                self.expect("=");
                Statement::Let(names, self.term())
            } else if self.word("assert") {
                self.expect("!");
                self.expect("(");
                let cond = self.term();
                self.expect(",");
                self.term();
                self.expect(")");
                Statement::Assert(cond)
            } else if self.word("return") {
                Statement::Return(self.term())
            } else if self.word("abort") {
                Statement::Abort(self.term())
            } else if self.word("while") {
                self.expect("(");
                let cond = self.term();
                self.expect(")");
                Statement::While(cond, self.block())
            } else {
                let term = self.term();
                if self.sign("=") {
                    let value = self.term();
                    match term.kind.clone() {
                        TermKind::Var(name) => Statement::Put(name, value),
                        _ => Statement::PutField(term, value),
                    }
                } else if matches!(self.peek(), Word::Sign("}")) {
                    Statement::Give(term)
                } else {
                    Statement::Do(term)
                }
            };
            self.sign(";");
            out.push(statement);
        }
        out
    }

    fn module(&mut self, file: usize) -> Vec<Fun> {
        let mut funs = vec![];
        assert!(self.word("module"), "a file holds a module");
        self.name();
        self.expect("::");
        let module = self.name();
        self.expect("{");
        while !self.sign("}") {
            if self.word("use") || self.word("const") {
                while !self.sign(";") {
                    self.at += 1;
                }
                continue;
            }
            let start = self.start();
            let (mut public, mut entry, mut native) = (false, false, false);
            loop {
                if self.word("public") {
                    public = true;
                } else if self.word("entry") {
                    entry = true;
                } else if self.word("native") {
                    native = true;
                } else {
                    break;
                }
            }
            if self.word("struct") {
                while !self.sign("}") {
                    self.at += 1;
                }
                continue;
            }
            assert!(self.word("fun"), "expected a function at {:?}", self.peek());
            let name = self.name();
            self.expect("(");
            let mut parameters = vec![];
            while !self.sign(")") {
                let parameter = self.name();
                self.expect(":");
                parameters.push((parameter, self.single_type()));
                self.sign(",");
            }
            let returned = if self.sign(":") { self.types() } else { vec![] };
            let body = if native {
                self.expect(";");
                vec![]
            } else {
                self.block()
            };
            funs.push(Fun {
                span: (start, self.end()),
                file,
                module: module.clone(),
                name,
                public,
                entry,
                native,
                parameters,
                returned,
                body,
            });
        }
        funs
    }
}

// ---- Lowering ----

struct Lowering<'a> {
    fun: &'a Fun,
    funs: &'a [Fun],
    vars: Vec<(String, SingleType)>,
    scope: BTreeMap<String, usize>,
    blocks: Vec<(Vec<Command>, Vec<usize>)>,
    current: usize,
    open: bool,
}

fn file_hash(file: usize) -> U256 {
    U256 {
        hi: 7,
        lo: file as u128 + 1,
    }
}

fn module_ident(name: &str) -> ModuleIdent {
    let (address, text) = match name {
        "transfer" | "coin" => (U256::from_u128(2), format!("sui::{name}")),
        _ => (U256::zero(), format!("pkg::{name}")),
    };
    ModuleIdent {
        address,
        name: name.to_string(),
        text,
    }
}

fn of(builtin: BuiltinTypeName) -> SingleType {
    SingleType::Base(BaseType::Builtin(builtin))
}

impl<'a> Lowering<'a> {
    fn loc(&self, span: (usize, usize)) -> Loc {
        Loc {
            file_hash: file_hash(self.fun.file),
            start: span.0 as u32,
            end: span.1 as u32,
        }
    }

    fn declare(&mut self, name: &str, ty: SingleType) -> usize {
        self.vars.push((name.to_string(), ty));
        self.scope.insert(name.to_string(), self.vars.len() - 1);
        self.vars.len() - 1
    }

    fn temporary(&mut self, ty: SingleType) -> usize {
        let name = format!("%#{}", self.vars.len());
        self.declare(&name, ty)
    }

    fn callee(&self, module: &Option<String>, name: &str) -> Option<&'a Fun> {
        let module = module.as_ref().unwrap_or(&self.fun.module);
        self.funs
            .iter()
            .find(|fun| fun.module == *module && fun.name == *name)
    }

    fn types_of(&self, term: &Term, hint: SingleType) -> Vec<SingleType> {
        match &term.kind {
            TermKind::Number(_, Some(builtin)) => vec![of(*builtin)],
            TermKind::Number(_, None) => vec![hint],
            TermKind::Bool(_) | TermKind::Not(_) => vec![of(BuiltinTypeName::Bool)],
            TermKind::Var(name) | TermKind::Borrow(name) => vec![self.vars[self.scope[name]].1],
            TermKind::Field(_, _) => vec![of(BuiltinTypeName::U64)],
            TermKind::Deref(inner) => match self.types_of(inner, hint)[0] {
                SingleType::Ref(_, base) => vec![SingleType::Base(base)],
                base => vec![base],
            },
            TermKind::Cast(_, to) => vec![of(*to)],
            TermKind::Tuple(parts) => {
                parts.iter().flat_map(|p| self.types_of(p, hint)).collect()
            }
            TermKind::Call(module, name, _) => match self.callee(module, name) {
                Some(fun) => fun.returned.clone(),
                None => vec![],
            },
            TermKind::Binary(op, left, right) => match op {
                BinOp::And
                | BinOp::Or
                | BinOp::Eq
                | BinOp::Neq
                | BinOp::Lt
                | BinOp::Le
                | BinOp::Gt
                | BinOp::Ge => vec![of(BuiltinTypeName::Bool)],
                BinOp::Shl | BinOp::Shr => self.types_of(left, hint),
                _ => {
                    if matches!(left.kind, TermKind::Number(_, None)) {
                        self.types_of(right, hint)
                    } else {
                        self.types_of(left, hint)
                    }
                }
            },
            TermKind::If(_, then, other) => match (then.last(), other.last()) {
                (Some(Statement::Give(value)), _) => self.types_of(value, hint),
                (_, Some(Statement::Give(value))) => self.types_of(value, hint),
                _ => vec![],
            },
        }
    }

    fn ty(types: Vec<SingleType>) -> Type {
        match types.len() {
            0 => Type::Unit,
            1 => Type::Single(types[0]),
            _ => Type::Multiple(types),
        }
    }

    fn number(n: U256, ty: SingleType) -> Value {
        let lo = n.lo;
        match ty {
            SingleType::Base(BaseType::Builtin(BuiltinTypeName::U8)) => Value::U8(lo as u8),
            SingleType::Base(BaseType::Builtin(BuiltinTypeName::U16)) => Value::U16(lo as u16),
            SingleType::Base(BaseType::Builtin(BuiltinTypeName::U32)) => Value::U32(lo as u32),
            SingleType::Base(BaseType::Builtin(BuiltinTypeName::U64)) => Value::U64(lo as u64),
            SingleType::Base(BaseType::Builtin(BuiltinTypeName::U128)) => Value::U128(lo),
            _ => Value::U256(n),
        }
    }

    fn exp(&mut self, term: &Term, hint: SingleType) -> Exp {
        let types = self.types_of(term, hint);
        let value = match &term.kind {
            TermKind::Number(n, _) => UnannotatedExp::Value(Self::number(*n, types[0])),
            TermKind::Bool(b) => UnannotatedExp::Value(Value::Bool(*b)),
            TermKind::Var(name) => UnannotatedExp::Copy(Var {
                index: self.scope[name],
            }),
            TermKind::Borrow(name) => UnannotatedExp::BorrowLocal(Var {
                index: self.scope[name],
            }),
            TermKind::Deref(inner) => {
                UnannotatedExp::Dereference(Box::new(self.exp(inner, hint)))
            }
            TermKind::Field(var, field) => {
                let inner = Exp {
                    ty: Type::Single(self.vars[self.scope[var]].1),
                    loc: self.loc(term.span),
                    value: UnannotatedExp::Copy(Var {
                        index: self.scope[var],
                    }),
                };
                UnannotatedExp::Borrow(Box::new(inner), field.clone())
            }
            TermKind::Not(inner) => {
                UnannotatedExp::Not(Box::new(self.exp(inner, of(BuiltinTypeName::Bool))))
            }
            TermKind::Cast(inner, to) => {
                UnannotatedExp::Cast(Box::new(self.exp(inner, hint)), *to)
            }
            TermKind::Tuple(parts) => {
                let mut values = vec![];
                for (i, part) in parts.iter().enumerate() {
                    let wanted = self.fun.returned.get(i).copied().unwrap_or(hint);
                    values.push(self.exp(part, wanted));
                }
                UnannotatedExp::Multiple(values)
            }
            TermKind::Binary(op, left, right) => {
                let side = match op {
                    BinOp::Shl | BinOp::Shr => types[0],
                    _ if matches!(left.kind, TermKind::Number(_, None)) => {
                        self.types_of(right, hint)[0]
                    }
                    _ => self.types_of(left, hint)[0],
                };
                let other = match op {
                    BinOp::Shl | BinOp::Shr => of(BuiltinTypeName::U8),
                    _ => side,
                };
                let left = self.exp(left, side);
                let right = self.exp(right, other);
                UnannotatedExp::BinopExp(Box::new(left), *op, Box::new(right))
            }
            TermKind::Call(module, name, arguments) => {
                let wanted: Vec<SingleType> = match self.callee(module, name) {
                    Some(fun) => fun.parameters.iter().map(|(_, ty)| *ty).collect(),
                    None => vec![],
                };
                let mut values = vec![];
                for (i, argument) in arguments.iter().enumerate() {
                    let wanted = wanted.get(i).copied().unwrap_or(hint);
                    values.push(self.exp(argument, wanted));
                }
                let module = module.as_ref().unwrap_or(&self.fun.module);
                UnannotatedExp::ModuleCall(Box::new(ModuleCall {
                    callee: FunctionKey {
                        module: module_ident(module),
                        name: name.clone(),
                    },
                    arguments: values,
                }))
            }
            TermKind::If(_, _, _) => panic!("an if stands on its own"),
        };
        Exp {
            ty: Self::ty(types),
            loc: self.loc(term.span),
            value,
        }
    }

    fn push(&mut self, span: (usize, usize), value: CommandKind) {
        let loc = self.loc(span);
        if self.open {
            self.blocks[self.current].0.push(Command { loc, value });
        }
    }

    fn new_block(&mut self) -> usize {
        self.blocks.push((vec![], vec![]));
        self.blocks.len() - 1
    }

    fn enter(&mut self, block: usize) {
        self.current = block;
        self.open = true;
    }

    fn jump(&mut self, to: usize) {
        if self.open {
            self.push((0, 0), CommandKind::Jump);
            self.blocks[self.current].1.push(to);
            self.open = false;
        }
    }

    fn branch(&mut self, cond: &Term, then: usize, other: usize) {
        let exp = self.exp(cond, of(BuiltinTypeName::Bool));
        self.push(cond.span, CommandKind::JumpIf(exp, then, other));
        self.blocks[self.current].1.push(then);
        self.blocks[self.current].1.push(other);
        self.open = false;
    }

    /// Runs the statements; the value of the block goes to the given variables.
    fn run(&mut self, statements: &[Statement], into: &[usize], hint: SingleType) {
        for statement in statements {
            match statement {
                Statement::Let(names, value) => {
                    let types = self.types_of(value, of(BuiltinTypeName::U256));
                    if matches!(value.kind, TermKind::If(_, _, _)) {
                        let targets: Vec<usize> =
                            types.iter().map(|ty| self.temporary(*ty)).collect();
                        self.give(value, &targets, types[0]);
                        for (name, target) in names.iter().zip(targets) {
                            let ty = self.vars[target].1;
                            let var = self.declare(name, ty);
                            let loc = self.loc(value.span);
                            let copy = Exp {
                                ty: Type::Single(ty),
                                loc,
                                value: UnannotatedExp::Copy(Var { index: target }),
                            };
                            let target = LValue::Var(Var { index: var });
                            self.push(value.span, CommandKind::Assign(vec![target], copy));
                        }
                    } else {
                        let exp = self.exp(value, of(BuiltinTypeName::U256));
                        let mut targets = vec![];
                        for (name, ty) in names.iter().zip(types) {
                            if name == "_" {
                                targets.push(LValue::Ignore);
                            } else {
                                let index = self.declare(name, ty);
                                targets.push(LValue::Var(Var { index }));
                            }
                        }
                        self.push(value.span, CommandKind::Assign(targets, exp));
                    }
                }
                Statement::Put(name, value) => {
                    let index = self.scope[name];
                    let ty = self.vars[index].1;
                    self.give(value, &[index], ty);
                }
                Statement::PutField(target, value) => {
                    let value_exp = self.exp(value, of(BuiltinTypeName::U64));
                    let target_exp = self.exp(target, of(BuiltinTypeName::U64));
                    self.push(target.span, CommandKind::Mutate(target_exp, value_exp));
                }
                Statement::Assert(cond) => {
                    let next = self.new_block();
                    let fails = self.new_block();
                    self.branch(cond, next, fails);
                    self.enter(fails);
                    let code = Exp {
                        ty: Type::Single(of(BuiltinTypeName::U64)),
                        loc: self.loc(cond.span),
                        value: UnannotatedExp::ErrorConstant,
                    };
                    self.push(cond.span, CommandKind::Abort(code));
                    self.open = false;
                    self.enter(next);
                }
                Statement::Abort(code) => {
                    let exp = self.exp(code, of(BuiltinTypeName::U64));
                    self.push(code.span, CommandKind::Abort(exp));
                    self.open = false;
                }
                Statement::Return(value) => self.return_value(value),
                Statement::While(cond, body) => {
                    let head = self.new_block();
                    self.jump(head);
                    self.enter(head);
                    let inside = self.new_block();
                    let after = self.new_block();
                    self.branch(cond, inside, after);
                    self.enter(inside);
                    self.run(body, &[], hint);
                    self.jump(head);
                    self.enter(after);
                }
                Statement::Do(term) => self.give(term, &[], hint),
                Statement::Give(term) => self.give(term, into, hint),
            }
        }
    }

    fn give(&mut self, term: &Term, into: &[usize], hint: SingleType) {
        if let TermKind::If(cond, then, other) = &term.kind {
            let yes = self.new_block();
            let no = self.new_block();
            self.branch(cond, yes, no);
            let after = self.new_block();
            self.enter(yes);
            self.run(then, into, hint);
            self.jump(after);
            self.enter(no);
            self.run(other, into, hint);
            self.jump(after);
            self.enter(after);
        } else if self.open {
            let exp = self.exp(term, hint);
            if into.is_empty() {
                self.push(term.span, CommandKind::IgnoreAndPop(exp));
            } else {
                let targets = into.iter().map(|i| LValue::Var(Var { index: *i })).collect();
                self.push(term.span, CommandKind::Assign(targets, exp));
            }
        }
    }

    fn return_value(&mut self, term: &Term) {
        let hint = self
            .fun
            .returned
            .first()
            .copied()
            .unwrap_or(of(BuiltinTypeName::U64));
        if matches!(term.kind, TermKind::If(_, _, _)) {
            let types = self.fun.returned.clone();
            let targets: Vec<usize> = types.iter().map(|ty| self.temporary(*ty)).collect();
            self.give(term, &targets, hint);
            let loc = self.loc(term.span);
            let mut values = vec![];
            for (index, ty) in targets.into_iter().zip(&types) {
                values.push(Exp {
                    ty: Type::Single(*ty),
                    loc,
                    value: UnannotatedExp::Move(Var { index }),
                });
            }
            let exp = if values.len() == 1 {
                values.remove(0)
            } else {
                Exp {
                    ty: Self::ty(types),
                    loc,
                    value: UnannotatedExp::Multiple(values),
                }
            };
            self.push(term.span, CommandKind::Return(exp));
        } else {
            let exp = self.exp(term, hint);
            self.push(term.span, CommandKind::Return(exp));
        }
        self.open = false;
    }

    fn body(mut self) -> (Vec<(String, SingleType)>, Body) {
        let start = self.new_block();
        self.enter(start);
        let (before, last) = match self.fun.body.split_last() {
            Some((Statement::Give(value), before)) if !self.fun.returned.is_empty() => {
                (before.to_vec(), Some(value.clone()))
            }
            _ => (self.fun.body.clone(), None),
        };
        self.run(&before, &[], of(BuiltinTypeName::U64));
        match last {
            Some(value) => self.return_value(&value),
            None => {
                let span = self.fun.span;
                let unit = Exp {
                    ty: Type::Unit,
                    loc: self.loc(span),
                    value: UnannotatedExp::Unit,
                };
                self.push(span, CommandKind::Return(unit));
            }
        }
        let count = self.blocks.len();
        let mut blocks: Vec<Block> = vec![];
        for (commands, mut successors) in self.blocks {
            successors.sort();
            successors.dedup();
            blocks.push(Block {
                commands,
                predecessors: vec![],
                successors,
            });
        }
        for label in 0..count {
            for successor in blocks[label].successors.clone() {
                blocks[successor].predecessors.push(label);
            }
        }
        (self.vars, Body { start, blocks })
    }
}

fn path(text: &str) -> SourcePath {
    SourcePath {
        components: text.split('/').map(|part| part.to_string()).collect(),
    }
}

fn program(files: &[(&str, &str)]) -> Program {
    let mut funs = vec![];
    for (i, (_, source)) in files.iter().enumerate() {
        let mut reader = Reader {
            words: words(source),
            at: 0,
        };
        funs.extend(reader.module(i));
    }
    funs.sort_by(|a, b| (&a.module, &a.name).cmp(&(&b.module, &b.name)));
    let mut functions = vec![];
    for fun in &funs {
        let mut lowering = Lowering {
            fun,
            funs: &funs,
            vars: vec![],
            scope: BTreeMap::new(),
            blocks: vec![],
            current: 0,
            open: false,
        };
        let mut parameters = vec![];
        for (name, ty) in &fun.parameters {
            let index = lowering.declare(name, *ty);
            parameters.push(Parameter {
                var: Var { index },
                ty: *ty,
            });
        }
        let loc = lowering.loc(fun.span);
        let (vars, body) = if fun.native {
            (lowering.vars, FunctionBody::Native)
        } else {
            let (vars, body) = lowering.body();
            (vars, FunctionBody::Defined(body))
        };
        functions.push(Function {
            key: FunctionKey {
                module: module_ident(&fun.module),
                name: fun.name.clone(),
            },
            loc,
            source_path: Some(path(files[fun.file].0)),
            visibility: if fun.public {
                Visibility::Public
            } else {
                Visibility::Internal
            },
            is_entry: fun.entry,
            parameters,
            vars: vars
                .into_iter()
                .map(|(name, ty)| Local { name, ty })
                .collect(),
            body,
        });
    }
    Program { functions }
}

// ---- Packages ----

/// The files of a package: where each lies, and its text. The package itself lies in `root`, its
/// dependencies beside it.
fn fixture(relative_path: &str) -> Vec<(&'static str, &'static str)> {
    match relative_path {
        "tests/security_analysis/real_cases/cetus_vulnerable" => vec![
            ("root/sources/math_u256.move", CETUS_VULNERABLE),
            ("root/sources/clmm_math.move", CETUS_CALLER),
        ],
        "tests/security_analysis/real_cases/cetus_patched" => vec![
            ("root/sources/math_u256.move", CETUS_PATCHED),
            ("root/sources/clmm_math.move", CETUS_CALLER),
        ],
        "tests/security_analysis/real_cases/integer_mate_cloned_vulnerable" => {
            vec![("root/sources/math_u256.move", INTEGER_MATE)]
        }
        "tests/security_analysis/real_cases/clmm_denominator_vulnerable" => {
            vec![("root/sources/clmm_math.move", CLMM_VULNERABLE)]
        }
        "tests/security_analysis/real_cases/clmm_denominator_patched" => {
            vec![("root/sources/clmm_math.move", CLMM_PATCHED)]
        }
        "tests/security_analysis/reduced_cases/safe_guards" => {
            vec![("root/sources/safe_guards.move", SAFE_GUARDS)]
        }
        "tests/security_analysis/reduced_cases/unsafe_direct" => {
            vec![("root/sources/unsafe_direct.move", UNSAFE_DIRECT)]
        }
        "tests/security_analysis/reduced_cases/helper_and_cast" => {
            vec![("root/sources/helper_and_cast.move", HELPER_AND_CAST)]
        }
        "tests/security_analysis/reduced_cases/invalid_shift" => {
            vec![("root/sources/invalid_shift.move", INVALID_SHIFT)]
        }
        "tests/security_analysis/reduced_cases/lossy_right_shift" => {
            vec![("root/sources/lossy_right_shift.move", LOSSY_RIGHT_SHIFT)]
        }
        "tests/security_analysis/reduced_cases/safe_right_shift" => {
            vec![("root/sources/safe_right_shift.move", SAFE_RIGHT_SHIFT)]
        }
        "tests/security_analysis/reduced_cases/dynamic_u256_shift" => {
            vec![("root/sources/dynamic_u256_shift.move", DYNAMIC_U256_SHIFT)]
        }
        "tests/security_analysis/reduced_cases/masked_cast_safe" => {
            vec![("root/sources/masked_cast_safe.move", MASKED_CAST_SAFE)]
        }
        "tests/security_analysis/reduced_cases/bitwise_warning" => {
            vec![("root/sources/bitwise_warning.move", BITWISE_WARNING)]
        }
        "tests/security_analysis/reduced_cases/weak_denominator_warning" => {
            vec![("root/sources/weak_denominator_warning.move", WEAK_DENOMINATOR)]
        }
        "tests/security_analysis/reduced_cases/safe_disjunctive_helper" => {
            vec![("root/sources/safe_disjunctive_helper.move", SAFE_DISJUNCTIVE)]
        }
        "tests/security_analysis/reduced_cases/reference_regressions" => {
            vec![("root/sources/reference_regressions.move", REFERENCES)]
        }
        "tests/security_analysis/reduced_cases/semantic_rename" => {
            vec![("root/sources/semantic_rename.move", SEMANTIC_RENAME)]
        }
        "tests/security_analysis/reduced_cases/rounding_mismatch" => {
            vec![("root/sources/rounding_mismatch.move", ROUNDING_MISMATCH)]
        }
        "tests/security_analysis/reduced_cases/neq_denominator_guard" => {
            vec![("root/sources/neq_denominator_guard.move", NEQ_DENOMINATOR)]
        }
        "tests/security_analysis/sink_cases/weak_sink" => {
            vec![("root/sources/weak_sink.move", WEAK_SINK)]
        }
        "tests/security_analysis/dependency_cases/local_dependency_root" => vec![
            ("root/sources/main.move", DEPENDENT),
            ("local_math/sources/helper.move", DEPENDENCY),
        ],
        "tests/security_analysis/dependency_cases/scope_root" => vec![
            ("root/sources/main.move", SCOPE_ROOT),
            ("direct/sources/direct.move", SCOPE_DIRECT),
            ("transitive/sources/transitive.move", SCOPE_TRANSITIVE),
        ],
        _ => panic!("no package at {relative_path}"),
    }
}

const CETUS_VULNERABLE: &str = "module pkg::math_u256 {
    public fun checked_shlw(n: u256): (u256, bool) {
        let mask = 0xffffffffffffffff << 192;
        if (n > mask) {
            (0, true)
        } else {
            ((n << 64), false)
        }
    }
}
";

const CETUS_PATCHED: &str = "module pkg::math_u256 {
    public fun checked_shlw(n: u256): (u256, bool) {
        let mask = 1 << 192;
        if (n >= mask) {
            (0, true)
        } else {
            ((n << 64), false)
        }
    }
}
";

const CETUS_CALLER: &str = "module pkg::clmm_math {
    public fun get_delta_a(liquidity: u256, sqrt_price_diff: u256): u256 {
        let (numerator, overflowing) = math_u256::checked_shlw(liquidity * sqrt_price_diff);
        if (overflowing) {
            abort 1
        };
        numerator
    }
}
";

const INTEGER_MATE: &str = "module pkg::math_u256 {
    const MAX_U256: u256 = 0xffffffffffffffffffffffffffffffffffffffffffffffffffffffffffffffff;

    public fun div_mod(num: u256, denom: u256): (u256, u256) {
        let p = num / denom;
        let r: u256 = num - (p * denom);
        (p, r)
    }

    public fun shlw(n: u256): u256 {
        n << 64
    }

    public fun shrw(n: u256): u256 {
        n >> 64
    }

    public fun checked_shlw(n: u256): (u256, bool) {
        let mask = 0xffffffffffffffff << 192;
        if (n > mask) {
            (0, true)
        } else {
            ((n << 64), false)
        }
    }
}
";

const CLMM_VULNERABLE: &str = "module pkg::clmm_math {
    public fun get_amount(liquidity: u256, sqrt_price_a: u256, sqrt_price_b: u256): u256 {
        let diff = sqrt_price_b - sqrt_price_a;
        let denominator = sqrt_price_a * sqrt_price_b;
        (liquidity * diff) / denominator
    }
}
";

const CLMM_PATCHED: &str = "module pkg::clmm_math {
    public fun get_amount(liquidity: u256, sqrt_price_a: u256, sqrt_price_b: u256): u256 {
        assert!(sqrt_price_a > 0, 1);
        assert!(sqrt_price_b > 0, 2);
        let diff = sqrt_price_b - sqrt_price_a;
        let denominator = sqrt_price_a * sqrt_price_b;
        (liquidity * diff) / denominator
    }
}
";

const SAFE_GUARDS: &str = "module pkg::safe_guards {
    public fun guarded(amount: u256, fallback: u256): u256 {
        if (amount <= (1 << 192) - 1) {
            amount << 64
        } else {
            fallback
        }
    }

    public fun asserted(amount: u256, _rate: u256): u256 {
        assert!(amount <= (1 << 192) - 1, 1);
        amount << 64
    }
}
";

const UNSAFE_DIRECT: &str = "module pkg::unsafe_direct {
    public fun scale(amount: u256, _rate: u256): u256 {
        amount << 64
    }
}
";

const HELPER_AND_CAST: &str = "module pkg::helper_and_cast {
    fun checked_shl(n: u256): (u256, bool) {
        let mask = 0xffffffffffffffff << 192;
        if (n > mask) {
            (0, true)
        } else {
            ((n << 64), false)
        }
    }

    public fun quote(liquidity: u256, price: u256): u256 {
        let (scaled, overflow) = checked_shl(liquidity * price);
        assert!(!overflow, 1);
        scaled
    }

    public fun to_amount(value: u256, _rate: u256): u64 {
        ((value << 64) as u64)
    }
}
";

const INVALID_SHIFT: &str = "module pkg::invalid_shift {
    public fun scale(amount: u64): u64 {
        amount << 64
    }
}
";

const LOSSY_RIGHT_SHIFT: &str = "module pkg::lossy_right_shift {
    public fun halve(amount: u64, _rate: u64): u64 {
        amount >> 1
    }
}
";

const SAFE_RIGHT_SHIFT: &str = "module pkg::safe_right_shift {
    public fun halve(amount: u64, _rate: u64): u64 {
        let aligned = amount & 0xfffffffffffffffe;
        aligned >> 1
    }
}
";

const DYNAMIC_U256_SHIFT: &str = "module pkg::dynamic_u256_shift {
    public fun scale(amount: u256, shift: u8): u256 {
        amount << shift
    }
}
";

const MASKED_CAST_SAFE: &str = "module pkg::masked_cast_safe {
    public fun low_bits(amount: u256, _rate: u256): u16 {
        ((amount & 0xffff) as u16)
    }
}
";

const BITWISE_WARNING: &str = "module pkg::bitwise_warning {
    public fun combine(amount: u64, fee: u64): u64 {
        (amount | 1) + fee
    }

    public fun flip(amount: u64, rate: u64): u64 {
        (amount ^ 0xff) * rate
    }
}
";

const WEAK_DENOMINATOR: &str = "module pkg::weak_denominator_warning {
    public fun quote(amount: u64, rate_a: u64, rate_b: u64): u64 {
        let denominator = rate_a * rate_b;
        assert!(denominator > 0, 1);
        amount / denominator
    }
}
";

const SAFE_DISJUNCTIVE: &str = "module pkg::safe_disjunctive_helper {
    public fun checked_shl(n: u256, _rate: u256): u256 {
        if (n == 0 || n < (1 << 192)) {
            n << 64
        } else {
            abort 1
        }
    }

    public fun stepwise(n: u256, _rate: u256): u256 {
        if (n == 0) {
            0
        } else if (n < (1 << 192)) {
            n << 64
        } else {
            abort 1
        }
    }
}
";

const REFERENCES: &str = "module pkg::reference_regressions {
    fun pick(seed: u256, coupon: u256): u256 {
        let _unused = coupon;
        *&seed << 64
    }

    public fun redeem(seed: u256, coupon: u256): u256 {
        pick(seed, coupon)
    }
}
";

const SEMANTIC_RENAME: &str = "module pkg::semantic_rename {
    public fun combine(alpha: u64, beta: u64, gamma: u64): u64 {
        let delta = beta * gamma;
        assert!(delta > 0, 1);
        alpha / delta
    }
}
";

const ROUNDING_MISMATCH: &str = "module pkg::rounding_mismatch {
    fun ceil_div(amount: u64, rate: u64): u64 {
        (amount + rate - 1) / rate
    }

    public fun shares(amount: u64, rate: u64, up: bool): u64 {
        assert!(rate > 0, 1);
        let shares = if (up) {
            ceil_div(amount, rate)
        } else {
            amount / rate
        };
        shares
    }
}
";

const NEQ_DENOMINATOR: &str = "module pkg::neq_denominator_guard {
    public fun per_unit(amount: u64, units: u64): u64 {
        assert!(units != 0, 1);
        amount / units
    }
}
";

const WEAK_SINK: &str = "module pkg::weak_sink {
    public fun scale(n: u256): u256 {
        n << 64
    }
}
";

const DEPENDENT: &str = "module pkg::main {
    public fun total(amount: u64, fee: u64): u64 {
        helper::sum(amount, fee)
    }
}
";

const DEPENDENCY: &str = "module local_math::helper {
    public fun sum(a: u64, b: u64): u64 {
        a + b
    }
}
";

const SCOPE_ROOT: &str = "module pkg::main {
    public fun run(amount: u256, rate: u256): u256 {
        direct::scale(amount, rate)
    }

    public fun local(amount: u64): u64 {
        amount << 64
    }
}
";

const SCOPE_DIRECT: &str = "module direct::direct {
    public fun scale(amount: u256, rate: u256): u256 {
        transitive::widen(amount, rate) + (rate << 64)
    }
}
";

const SCOPE_TRANSITIVE: &str = "module transitive::transitive {
    public fun widen(amount: u256, _rate: u256): u256 {
        amount << 128
    }

    public fun unused(amount: u256, _rate: u256): u256 {
        amount << 32
    }
}
";

// ---- Analyses ----

struct Analysis {
    findings: Vec<SecurityFinding>,
    files: Vec<(&'static str, &'static str)>,
}

impl Analysis {
    fn find_by_rule(&self, rule: RiskKind) -> Vec<&SecurityFinding> {
        self.findings
            .iter()
            .filter(|finding| finding.kind == rule)
            .collect()
    }

    fn find_in_file(&self, rule: RiskKind, file_suffix: &str) -> Vec<&SecurityFinding> {
        self.find_by_rule(rule)
            .into_iter()
            .filter(|finding| self.path_for(finding).ends_with(file_suffix))
            .collect()
    }

    fn file_of(&self, finding: &SecurityFinding) -> usize {
        (0..self.files.len())
            .find(|file| file_hash(*file) == finding.loc.file_hash)
            .expect("a finding lies in a file")
    }

    fn path_for(&self, finding: &SecurityFinding) -> String {
        self.files[self.file_of(finding)].0.to_string()
    }

    fn line_for(&self, finding: &SecurityFinding) -> usize {
        let source = self.files[self.file_of(finding)].1;
        source[..finding.loc.start as usize].matches('\n').count() + 1
    }
}

fn dependencies() -> Vec<PackageEntry> {
    ["root", "direct", "local_math", "transitive"]
        .iter()
        .map(|name| PackageEntry {
            name: name.to_string(),
            path: path(name),
        })
        .collect()
}

fn scope_roots() -> PackageScopeRoots {
    let root = PackageEntry {
        name: "root".to_string(),
        path: path("root"),
    };
    scope_roots_from_graph(
        &root,
        &dependencies(),
        &vec!["direct".to_string(), "local_math".to_string()],
    )
}

fn analyze_scope(relative_path: &str, scope: AnalysisScope, mode: SecurityMathMode) -> Analysis {
    let files = fixture(relative_path);
    let program = program(&files);
    let roots = scope_roots();
    let allowed = roots.scope_roots(scope);
    let root = roots.scope_roots(AnalysisScope::RootOnly);
    let analyzer = ProgramAnalyzer::new(&program, allowed.as_ref(), root.as_ref(), mode, 250);
    let findings = analyzer.run_findings(STEPS).expect("the analysis ends");
    Analysis { findings, files }
}

fn analyze_fixture(relative_path: &str) -> Analysis {
    analyze_scope(relative_path, AnalysisScope::WholeGraph, SecurityMathMode::Fast)
}

fn analyze_source(source: &'static str) -> Analysis {
    let files = vec![("root/sources/source.move", source)];
    let program = program(&files);
    let findings = analyze_cfgir_program_findings(&program, STEPS).expect("the analysis ends");
    Analysis { findings, files }
}

#[test]
fn cetus_vulnerable_helper_path_is_reported() {
    let analysis = analyze_fixture("tests/security_analysis/real_cases/cetus_vulnerable");
    let findings = analysis.find_in_file(RiskKind::FakeCheckedShift, "math_u256.move");
    assert!(
        !findings.is_empty(),
        "expected fake checked shift finding, got {:?}",
        analysis.findings
    );

    let finding = findings[0];
    assert_eq!(finding.severity, Severity::NonblockingError);
    assert_eq!(analysis.line_for(finding), 7);
    assert!(finding.failed_condition.contains("MAX_U256 >> 64"));
    assert!(finding.message.contains("weaker than the true no-truncation bound"));
    assert!(finding.title.contains("checked-shift helper"));
}

#[test]
fn cloned_integer_mate_helper_is_reported() {
    let analysis =
        analyze_fixture("tests/security_analysis/real_cases/integer_mate_cloned_vulnerable");
    let findings = analysis.find_in_file(RiskKind::FakeCheckedShift, "math_u256.move");
    assert!(
        !findings.is_empty(),
        "expected vulnerable cloned helper finding, got {:?}",
        analysis.findings
    );
    let finding = findings[0];
    assert_eq!(analysis.line_for(finding), 23);
    assert!(finding.failed_condition.contains("MAX_U256 >> 64"));
    assert!(finding.message.contains("weaker than the true no-truncation bound"));
}

#[test]
fn cetus_patched_helper_is_suppressed() {
    let analysis = analyze_fixture("tests/security_analysis/real_cases/cetus_patched");
    assert!(
        analysis.find_by_rule(RiskKind::FakeCheckedShift).is_empty(),
        "patched helper should not be reported: {:?}",
        analysis.findings
    );
    assert!(
        analysis.find_by_rule(RiskKind::ReachableShiftTruncation).is_empty(),
        "patched helper should not leave a shift-truncation finding: {:?}",
        analysis.findings
    );
}

#[test]
fn clmm_denominator_zero_path_is_reported() {
    let analysis =
        analyze_fixture("tests/security_analysis/real_cases/clmm_denominator_vulnerable");
    let findings = analysis.find_in_file(RiskKind::ReachableWeakDenominator, "clmm_math.move");
    assert!(!findings.is_empty(), "unexpected findings: {:?}", analysis.findings);
    let finding = findings[0];
    assert_eq!(finding.severity, Severity::NonblockingError);
    assert!(finding.title.contains("CLMM denominator"));
    assert!(finding.failed_condition.contains("> 0"));
}

#[test]
fn clmm_denominator_with_explicit_price_guards_is_suppressed() {
    let analysis = analyze_fixture("tests/security_analysis/real_cases/clmm_denominator_patched");
    assert!(
        analysis
            .find_by_rule(RiskKind::ReachableWeakDenominator)
            .is_empty(),
        "patched denominator guards should suppress findings: {:?}",
        analysis.findings
    );
}

#[test]
fn safe_exact_bound_direct_shift_is_suppressed() {
    let analysis = analyze_fixture("tests/security_analysis/reduced_cases/safe_guards");
    assert!(
        analysis.findings.is_empty(),
        "guarded exact-bound shift should be safe: {:?}",
        analysis.findings
    );
}

#[test]
fn assert_narrowing_suppresses_shift_warning() {
    let analysis = analyze_fixture("tests/security_analysis/reduced_cases/safe_guards");
    assert!(
        analysis.findings.is_empty(),
        "assert! should narrow the path enough to suppress the shift: {:?}",
        analysis.findings
    );
}

#[test]
fn unsafe_direct_shift_is_reported() {
    let analysis = analyze_fixture("tests/security_analysis/reduced_cases/unsafe_direct");
    let findings = analysis.find_in_file(RiskKind::ReachableShiftTruncation, "unsafe_direct.move");
    assert_eq!(findings.len(), 1, "unexpected findings: {:?}", analysis.findings);
    let finding = findings[0];
    assert_eq!(finding.severity, Severity::NonblockingError);
    assert_eq!(analysis.line_for(finding), 3);
    assert!(finding.failed_condition.contains("MAX_U256 >> 64"));
}

#[test]
fn wrong_helper_wrapper_is_reported() {
    let analysis = analyze_fixture("tests/security_analysis/reduced_cases/helper_and_cast");
    let findings = analysis.find_in_file(RiskKind::FakeCheckedShift, "helper_and_cast.move");
    assert!(
        !findings.is_empty(),
        "expected unsound checked helper finding: {:?}",
        analysis.findings
    );
    let finding = findings[0];
    assert_eq!(finding.severity, Severity::NonblockingError);
    assert!(finding.failed_condition.contains("MAX_U256 >> 64"));
}

#[test]
fn invalid_shift_count_is_reported_separately() {
    let analysis = analyze_fixture("tests/security_analysis/reduced_cases/invalid_shift");
    let findings = analysis.find_in_file(RiskKind::InvalidShiftCount, "invalid_shift.move");
    assert_eq!(findings.len(), 1, "unexpected findings: {:?}", analysis.findings);
    let finding = findings[0];
    assert_eq!(analysis.line_for(finding), 3);
    assert!(finding.failed_condition.contains("64 < 64"));
}

#[test]
fn cast_after_shift_is_reported() {
    let analysis = analyze_fixture("tests/security_analysis/reduced_cases/helper_and_cast");
    let findings = analysis.find_in_file(RiskKind::ReachableNarrowCast, "helper_and_cast.move");
    assert!(
        !findings.is_empty(),
        "expected reachable narrowing cast finding: {:?}",
        analysis.findings
    );
    let finding = findings
        .iter()
        .find(|finding| analysis.line_for(finding) == 18)
        .copied()
        .unwrap_or(findings[0]);
    assert_eq!(finding.severity, Severity::NonblockingError);
    assert!(finding.failed_condition.contains("<="));
}

#[test]
fn lossy_right_shift_into_amount_sink_is_reported() {
    let analysis = analyze_fixture("tests/security_analysis/reduced_cases/lossy_right_shift");
    let findings =
        analysis.find_in_file(RiskKind::ReachableLossyRightShift, "lossy_right_shift.move");
    assert_eq!(findings.len(), 1, "unexpected findings: {:?}", analysis.findings);
    let finding = findings[0];
    assert_eq!(finding.severity, Severity::NonblockingError);
    assert_eq!(analysis.line_for(finding), 3);
    assert!(finding.failed_condition.contains("&"));
}

#[test]
fn exact_right_shift_after_mask_is_suppressed() {
    let analysis = analyze_fixture("tests/security_analysis/reduced_cases/safe_right_shift");
    assert!(
        analysis.findings.is_empty(),
        "masked exact right shift should be safe: {:?}",
        analysis.findings
    );
}

#[test]
fn dynamic_u256_shift_is_reported_as_warning() {
    let analysis = analyze_fixture("tests/security_analysis/reduced_cases/dynamic_u256_shift");
    let findings = analysis.find_in_file(RiskKind::DynamicU256Shift, "dynamic_u256_shift.move");
    assert_eq!(findings.len(), 1, "unexpected findings: {:?}", analysis.findings);
    let finding = findings[0];
    assert_eq!(finding.severity, Severity::Warning);
    assert_eq!(analysis.line_for(finding), 3);
    assert!(finding.message.contains("u256 shift counts are not runtime-checked"));
}

#[test]
fn masked_bit_extract_before_cast_is_suppressed() {
    let analysis = analyze_fixture("tests/security_analysis/reduced_cases/masked_cast_safe");
    assert!(
        analysis.findings.is_empty(),
        "masking to the destination range should suppress cast findings: {:?}",
        analysis.findings
    );
}

#[test]
fn bitwise_or_and_xor_before_amount_math_warn() {
    let analysis = analyze_fixture("tests/security_analysis/reduced_cases/bitwise_warning");
    let findings =
        analysis.find_in_file(RiskKind::SuspiciousBitwiseArithmetic, "bitwise_warning.move");
    assert_eq!(findings.len(), 2, "unexpected findings: {:?}", analysis.findings);
    for finding in findings {
        assert_eq!(finding.severity, Severity::Warning);
    }
}

#[test]
fn weak_denominator_product_only_guarded_at_product_level_warns() {
    let analysis =
        analyze_fixture("tests/security_analysis/reduced_cases/weak_denominator_warning");
    let findings = analysis.find_in_file(
        RiskKind::ReachableWeakDenominator,
        "weak_denominator_warning.move",
    );
    assert_eq!(findings.len(), 1, "unexpected findings: {:?}", analysis.findings);
    let finding = findings[0];
    assert_eq!(finding.severity, Severity::Warning);
    assert!(finding.title.contains("independently proven positive"));
}

#[test]
fn safe_or_guard_checked_helper_is_suppressed() {
    let analysis = analyze_fixture("tests/security_analysis/reduced_cases/safe_disjunctive_helper");
    assert!(
        analysis.findings.is_empty(),
        "safe disjunctive helper guard should suppress findings: {:?}",
        analysis.findings
    );
}

#[test]
fn helper_return_unrelated_param_reports_seed_shift() {
    let analysis = analyze_fixture("tests/security_analysis/reduced_cases/reference_regressions");
    let findings = analysis.find_in_file(
        RiskKind::ReachableShiftTruncation,
        "reference_regressions.move",
    );
    assert_eq!(findings.len(), 1, "unexpected findings: {:?}", analysis.findings);
    let finding = findings[0];
    assert!(finding.message.contains("seed"));
    assert!(!finding.message.contains("coupon"));
}

#[test]
fn weak_sink_is_lower_severity_than_cetus_path() {
    let cetus = analyze_fixture("tests/security_analysis/real_cases/cetus_vulnerable");
    let weak = analyze_fixture("tests/security_analysis/sink_cases/weak_sink");

    let cetus_finding = cetus
        .find_in_file(RiskKind::FakeCheckedShift, "math_u256.move")
        .into_iter()
        .next()
        .expect("missing Cetus helper finding");
    let weak_finding = weak
        .find_in_file(RiskKind::ReachableShiftTruncation, "weak_sink.move")
        .into_iter()
        .next()
        .expect("missing weak sink shift finding");

    assert_eq!(cetus_finding.severity, Severity::NonblockingError);
    assert_eq!(weak_finding.severity, Severity::Warning);
}

#[test]
fn package_with_local_dependency_is_analyzed() {
    let analysis =
        analyze_fixture("tests/security_analysis/dependency_cases/local_dependency_root");
    assert!(
        analysis.findings.is_empty(),
        "dependency smoke fixture should compile cleanly once the local dependency resolves: {:?}",
        analysis.findings
    );
}

#[test]
fn weak_denominators_do_not_depend_on_names() {
    let analysis = analyze_fixture("tests/security_analysis/reduced_cases/semantic_rename");
    let findings = analysis.find_by_rule(RiskKind::ReachableWeakDenominator);
    assert_eq!(findings.len(), 1, "unexpected findings: {:?}", analysis.findings);
    assert_eq!(findings[0].severity, Severity::Warning);
    assert!(findings[0].failed_condition.contains("beta > 0"));
    assert!(findings[0].failed_condition.contains("gamma > 0"));
}

#[test]
fn rounding_up_and_down_for_one_quantity_is_reported() {
    let analysis = analyze_fixture("tests/security_analysis/reduced_cases/rounding_mismatch");
    let findings = analysis.find_by_rule(RiskKind::ReachableRoundingMismatch);
    assert!(!findings.is_empty(), "unexpected findings: {:?}", analysis.findings);
    assert_eq!(findings[0].severity, Severity::NonblockingError);
}

#[test]
fn a_guard_against_zero_makes_a_denominator_safe() {
    let analysis = analyze_fixture("tests/security_analysis/reduced_cases/neq_denominator_guard");
    assert!(analysis.findings.is_empty(), "{:?}", analysis.findings);
}

#[test]
fn an_unguarded_denominator_is_reported() {
    let analysis = analyze_source(
        "module pkg::plain {
    public fun per_unit(amount: u64, units: u64): u64 {
        amount / units
    }
}
",
    );
    let findings = analysis.find_by_rule(RiskKind::ReachableWeakDenominator);
    assert_eq!(findings.len(), 1);
    assert_eq!(findings[0].severity, Severity::NonblockingError);
    assert_eq!(findings[0].failed_condition, "units != 0");
    assert_eq!(
        findings[0].title,
        "Denominator may be zero on a reachable value-bearing path"
    );
}

#[test]
fn scopes_decide_which_functions_are_analyzed() {
    let at = "tests/security_analysis/dependency_cases/scope_root";
    let root = analyze_scope(at, AnalysisScope::RootOnly, SecurityMathMode::Fast);
    let direct = analyze_scope(at, AnalysisScope::RootAndDirectDeps, SecurityMathMode::Fast);
    let all = analyze_scope(at, AnalysisScope::WholeGraph, SecurityMathMode::Fast);
    let files = |analysis: &Analysis| {
        let mut files: Vec<String> = analysis
            .findings
            .iter()
            .map(|finding| analysis.path_for(finding))
            .collect();
        files.sort();
        files.dedup();
        files
    };
    assert_eq!(files(&root), vec!["root/sources/main.move"]);
    assert_eq!(
        files(&direct),
        vec!["direct/sources/direct.move", "root/sources/main.move"]
    );
    assert_eq!(
        files(&all),
        vec![
            "direct/sources/direct.move",
            "root/sources/main.move",
            "transitive/sources/transitive.move"
        ]
    );
    // A function that nothing in the package calls is left out.
    assert!(all.findings.iter().all(|f| !f.message.contains("<< 32")));
}

#[test]
fn findings_know_the_scope_of_their_package() {
    let at = "tests/security_analysis/dependency_cases/scope_root";
    let analysis = analyze_scope(at, AnalysisScope::WholeGraph, SecurityMathMode::Fast);
    let files = analysis
        .files
        .iter()
        .enumerate()
        .map(|(i, (name, _))| SourceFile {
            file_hash: file_hash(i),
            path: path(name),
        })
        .collect();
    let expected: Vec<PackageSourceScope> = analysis
        .findings
        .iter()
        .map(|finding| match analysis.path_for(finding).as_str() {
            "root/sources/main.move" => PackageSourceScope::RootPackage,
            "direct/sources/direct.move" => PackageSourceScope::DirectDependency,
            _ => PackageSourceScope::TransitiveDependency,
        })
        .collect();
    let package = PackageSecurityAnalysis {
        findings: analysis.findings,
        files,
        install_dir: path("build"),
        scope_roots: scope_roots(),
        metrics: PackageAnalysisMetrics::default(),
    };
    let found: Vec<PackageSourceScope> = package
        .findings
        .iter()
        .map(|finding| package.finding_scope(finding))
        .collect();
    assert_eq!(found, expected);
    assert_eq!(found.len(), 3);
}

#[test]
fn deep_mode_asks_for_every_factor() {
    let source = "module pkg::deep {
    public fun unit(rate_a: u64, rate_b: u64): u64 {
        let product = rate_a * rate_b;
        assert!(product > 0, 1);
        1000 / product
    }
}
";
    let files = vec![("root/sources/deep.move", source)];
    let program = program(&files);
    let run = |mode| {
        ProgramAnalyzer::new(&program, None, None, mode, 250)
            .run_findings(STEPS)
            .expect("the analysis ends")
    };
    assert!(run(SecurityMathMode::Fast).is_empty());
    let deep = run(SecurityMathMode::Deep);
    assert_eq!(deep.len(), 1);
    assert_eq!(deep[0].kind, RiskKind::ReachableWeakDenominator);
    assert_eq!(deep[0].severity, Severity::Warning);
}

#[test]
fn loops_are_analyzed_to_their_end() {
    let analysis = analyze_source(
        "module pkg::loops {
    public fun scale(amount: u64, limit: u64): u64 {
        let scaled = limit;
        while (scaled > amount) {
            scaled = next(scaled);
        };
        scaled << 8
    }

    native fun next(n: u64): u64;
}
",
    );
    let findings = analysis.find_by_rule(RiskKind::ReachableShiftTruncation);
    assert_eq!(findings.len(), 1, "{:?}", analysis.findings);
    assert_eq!(analysis.line_for(findings[0]), 7);
}

#[test]
fn a_risk_that_reaches_a_field_is_an_error() {
    let analysis = analyze_source(
        "module pkg::fields {
    struct Pool { amount: u64 }

    public fun credit(pool: &mut Pool, amount: u64) {
        pool.amount = amount >> 3;
    }
}
",
    );
    let findings = analysis.find_by_rule(RiskKind::ReachableLossyRightShift);
    assert_eq!(findings.len(), 1);
    assert_eq!(findings[0].severity, Severity::NonblockingError);
    assert_eq!(findings[0].sink_detail, Some("amount".to_string()));
}

#[test]
fn a_risk_that_leaves_the_package_is_graded_by_the_callee() {
    let analysis = analyze_source(
        "module pkg::calls {
    fun pay(amount: u64) {
        coin::take(amount << 8);
    }

    fun log(amount: u64) {
        events::record(amount << 9);
    }
}
",
    );
    let findings = analysis.find_by_rule(RiskKind::ReachableShiftTruncation);
    assert_eq!(findings.len(), 2, "{:?}", analysis.findings);
    let pay = findings.iter().find(|f| f.message.contains("<< 8")).expect("pay");
    let log = findings.iter().find(|f| f.message.contains("<< 9")).expect("log");
    assert_eq!(pay.severity, Severity::NonblockingError);
    assert_eq!(
        pay.sink_detail,
        Some("sui::coin::take [known-asset-movement-api]".to_string())
    );
    assert_eq!(log.severity, Severity::Warning);
    assert_eq!(
        log.sink_detail,
        Some("pkg::events::record [external-boundary-call]".to_string())
    );
}

#[test]
fn risks_of_a_guarded_argument_are_discharged() {
    let analysis = analyze_source(
        "module pkg::guarded {
    fun widen(n: u256): u256 {
        n << 64
    }

    public fun safe(amount: u256, _rate: u256): u256 {
        assert!(amount <= 1000, 1);
        widen(amount)
    }
}
",
    );
    assert!(analysis.findings.is_empty(), "{:?}", analysis.findings);
}

#[test]
fn diagnostics_carry_the_code_of_their_rule() {
    let files = fixture("tests/security_analysis/reduced_cases/unsafe_direct");
    let diagnostics =
        analyze_cfgir_program(&program(&files), STEPS).expect("the analysis ends");
    assert_eq!(diagnostics.len(), 1);
    assert_eq!(diagnostics[0].code, 1);
    assert_eq!(diagnostics[0].prefix, "Security ");
    assert_eq!(diagnostics[0].category, 98);
    assert!(diagnostics[0]
        .notes
        .contains(&"rule id: security/reachable-shift-truncation".to_string()));
}

#[test]
fn an_analysis_without_steps_does_not_end() {
    let files = fixture("tests/security_analysis/reduced_cases/unsafe_direct");
    assert!(analyze_cfgir_program(&program(&files), 0).is_none());
}

#[test]
fn messages_say_what_could_not_be_proved() {
    let analysis = analyze_fixture("tests/security_analysis/reduced_cases/unsafe_direct");
    let finding = &analysis.findings[0];
    assert_eq!(
        finding.failed_condition,
        "amount <= 6277101735386680763835789423207666416102355444464034512895 (MAX_U256 >> 64)"
    );
    assert_eq!(
        finding.sink_detail,
        Some("returned from pkg::unsafe_direct::scale".to_string())
    );
    assert!(finding.message.starts_with("amount << 64u8. The analyzer cannot prove `"));
}
