//! The parsed program, before name resolution: what the loader and the lint
//! look at.

use vstd::prelude::*;

verus! {

/// A stretch of a source file.
#[derive(Clone, Copy, Debug, PartialEq, Eq, Structural)]
pub struct Span {
    pub file: u32,
    pub start: u32,
    pub end: u32,
}

#[derive(Debug)]
pub enum ExprKind {
    Lit,
    Ident(String),
    BinOp { lhs: Box<Expr>, rhs: Box<Expr> },
    Unary { operand: Box<Expr> },
    Call { callee: Box<Expr>, args: Vec<Expr> },
    Index { base: Box<Expr>, indices: Vec<Expr> },
    TensorLiteral { elements: Vec<Expr> },
    ArrayLiteral { elements: Vec<Expr> },
    FieldAccess { base: Box<Expr>, field: String },
    Tuple(Vec<Expr>),
    TupleIndex { base: Box<Expr>, index: usize },
    KernelLaunch { config: Vec<Expr>, args: Vec<Expr> },
}

#[derive(Debug)]
pub struct Expr {
    pub kind: ExprKind,
}

#[derive(Debug)]
pub struct MatchArm {
    pub body: Vec<Stmt>,
}

#[derive(Debug)]
#[allow(inconsistent_fields)]
pub enum StmtKind {
    Let { expr: Expr },
    LetMut { expr: Expr },
    LetTuple { expr: Expr },
    LetShared,
    Assign { target: Expr, expr: Expr },
    Return { expr: Expr },
    Expr(Expr),
    If { condition: Expr, then_body: Vec<Stmt>, else_body: Option<Vec<Stmt>> },
    For { start: Expr, end: Expr, body: Vec<Stmt> },
    ForIn { iter: Expr, body: Vec<Stmt> },
    While { condition: Expr, body: Vec<Stmt> },
    Match { scrutinee: Expr, arms: Vec<MatchArm> },
    NoGrad { body: Vec<Stmt> },
    Break,
    Continue,
}

#[derive(Debug)]
pub struct Stmt {
    pub kind: StmtKind,
}

/// A type parameter with its bound, if it has one.
#[derive(Debug)]
pub struct TypeParam {
    pub name: String,
    pub bound: Option<String>,
}

/// A dotted module name.
#[derive(Debug)]
pub struct ModulePath {
    pub segments: Vec<String>,
    pub span: Span,
}

/// A function definition.
#[derive(Debug)]
pub struct FnDef {
    pub name: String,
    pub type_params: Vec<TypeParam>,
    pub body: Vec<Stmt>,
}

#[derive(Debug)]
pub enum Item {
    Fn(FnDef),
    Kernel { name: String },
    Impl { for_type: String, methods: Vec<FnDef> },
    Struct { name: String },
    Enum { name: String },
    Trait { name: String },
    Import { path: ModulePath },
    FromImport { path: ModulePath, names: Vec<(String, Span)> },
}

#[derive(Debug)]
pub struct Program {
    pub items: Vec<Item>,
}

} // verus!
