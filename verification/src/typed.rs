//! The typed program that both code generators consume: resolved types,
//! expressions, statements, functions and kernels.

use vstd::prelude::*;

verus! {

/// Element type of a tensor or a scalar value.
#[derive(Clone, Copy, Debug, PartialEq, Eq, Structural)]
pub enum ScalarTy {
    F32,
    F16,
    Bf16,
    I8,
    I16,
    I32,
    I64,
    U8,
    U16,
    U32,
    U64,
}

/// Binary operators of the language.
#[derive(Clone, Copy, Debug, PartialEq, Eq, Structural)]
pub enum BinOp {
    Add,
    Sub,
    Mul,
    Div,
    Matmul,
    Eq,
    NotEq,
    Lt,
    LtEq,
    Gt,
    GtEq,
    And,
    Or,
    Pow,
}

/// Unary operators of the language.
#[derive(Clone, Copy, Debug, PartialEq, Eq, Structural)]
pub enum UnaryOp {
    Neg,
    Not,
}

/// A floating-point literal, held as the two renderings that code generation
/// reads: its shortest decimal text (`0.5`, `1e-8`) and the bit pattern of the
/// nearest single-precision value.
#[derive(Debug)]
pub struct FloatLit {
    pub text: String,
    pub bits: u32,
}

#[derive(Debug)]
pub enum Lit {
    Int(i64),
    Float(FloatLit),
    Bool(bool),
    Str(String),
}

/// A type after name resolution.
#[derive(Debug)]
pub enum ResolvedTy {
    Tensor { dtype: ScalarTy },
    Scalar(ScalarTy),
    Bool,
    Unit,
    Str,
    Tuple(Vec<ResolvedTy>),
    Struct { name: String, fields: Vec<(String, ResolvedTy)> },
    Enum { name: String, variants: Vec<(String, Vec<(String, ResolvedTy)>)> },
    Array { elem: Box<ResolvedTy>, len: usize },
    Buffer { dtype: ScalarTy },
    List { elem: Box<ResolvedTy> },
}

#[derive(Debug)]
pub struct TypedExpr {
    pub kind: TypedExprKind,
    pub ty: ResolvedTy,
    /// Whether the value takes part in gradient recording.
    pub grad_tracked: bool,
}

#[derive(Debug)]
#[allow(inconsistent_fields)]
pub enum TypedExprKind {
    Lit(Lit),
    Ident(String),
    BinOp { op: BinOp, lhs: Box<TypedExpr>, rhs: Box<TypedExpr> },
    Unary { op: UnaryOp, operand: Box<TypedExpr> },
    Call { callee: String, args: Vec<TypedExpr> },
    KernelCall { callee: String, args: Vec<TypedExpr> },
    TensorLiteral { dtype: ScalarTy, elements: Vec<TypedExpr>, shape: Vec<usize> },
    Index { base: Box<TypedExpr>, indices: Vec<TypedExpr> },
    ArrayLiteral { elements: Vec<TypedExpr> },
    FieldAccess { base: Box<TypedExpr>, field: String },
    StructInit { name: String, fields: Vec<TypedExpr> },
    EnumInit { variant_index: u32, payload: Vec<TypedExpr>, max_payload_slots: usize },
    TupleInit { elements: Vec<TypedExpr> },
    TupleIndex { base: Box<TypedExpr>, index: usize },
    KernelLaunch {
        kernel: String,
        grid: Box<TypedExpr>,
        tg: Box<TypedExpr>,
        out_shape: Option<Box<TypedExpr>>,
        tensor_args: Vec<TypedExpr>,
        scalar_args: Vec<TypedExpr>,
    },
}

/// The place an assignment writes to.
#[derive(Debug)]
pub enum TypedAssignTarget {
    Ident(String),
    Index { base: String, index: Box<TypedExpr>, elem_ty: ResolvedTy },
    ListIndex { base: String, index: Box<TypedExpr>, elem_ty: ResolvedTy },
    Field { base: String, slot_idx: usize, field_ty: ResolvedTy },
    BufferIndex { base: String, index: Box<TypedExpr>, elem_ty: ResolvedTy },
}

/// One variant of an enum that is being dropped: its tag and the payload slots
/// that own heap resources.
#[derive(Debug)]
pub struct DropVariant {
    pub tag: u32,
    pub fields: Vec<(usize, ResolvedTy)>,
}

#[derive(Debug)]
pub struct TypedMatchArm {
    pub variant_index: u32,
    pub bindings: Vec<(String, ResolvedTy)>,
    pub body: Vec<TypedStmt>,
}

#[derive(Debug)]
#[allow(inconsistent_fields)]
pub enum TypedStmt {
    Let { name: String, expr: TypedExpr },
    LetTuple { names: Vec<(String, ResolvedTy)>, expr: TypedExpr },
    LetShared { name: String, elem_ty: ScalarTy, size: usize },
    Assign { target: TypedAssignTarget, expr: TypedExpr },
    Return { expr: TypedExpr },
    Expr(TypedExpr),
    If { condition: TypedExpr, then_body: Vec<TypedStmt>, else_body: Option<Vec<TypedStmt>> },
    For { var: String, start: TypedExpr, end: TypedExpr, body: Vec<TypedStmt> },
    While { condition: TypedExpr, body: Vec<TypedStmt> },
    ForIn { var: String, iter: TypedExpr, body: Vec<TypedStmt> },
    Break,
    Continue,
    Match { scrutinee: TypedExpr, arms: Vec<TypedMatchArm> },
    NoGrad { body: Vec<TypedStmt> },
    GpuBarrier,
    Drop { name: String },
    Retain { name: String },
    Release { name: String },
    RetainAgg { name: String },
    ReleaseAgg { name: String },
    DropStruct { name: String, droppable_fields: Vec<(usize, ResolvedTy)> },
    DropEnum { name: String, variants: Vec<DropVariant> },
    DropArray { name: String, elem_ty: ResolvedTy, len: usize },
    DropList { name: String, elem_ty: ResolvedTy },
    DropTuple { name: String, droppable_fields: Vec<(usize, ResolvedTy)> },
    DropBuffer { name: String },
}

#[derive(Debug)]
pub struct TypedParam {
    pub name: String,
    pub ty: ResolvedTy,
}

#[derive(Debug)]
pub struct TypedFn {
    pub name: String,
    pub params: Vec<TypedParam>,
    pub return_ty: ResolvedTy,
    pub body: Vec<TypedStmt>,
}

#[derive(Debug)]
pub struct TypedKernel {
    pub name: String,
    pub params: Vec<TypedParam>,
    pub return_ty: ResolvedTy,
    pub body: Vec<TypedStmt>,
    /// A body of `let`s and one `return`, mapped over every element.
    pub is_implicit_map: bool,
}

#[derive(Debug)]
pub struct TypedProgram {
    pub fns: Vec<TypedFn>,
    pub kernels: Vec<TypedKernel>,
}

impl ScalarTy {
    pub open spec fn is_float(self) -> bool {
        self is F32 || self is F16 || self is Bf16
    }

    /// Source spelling of the scalar type.
    pub open spec fn text(self) -> Seq<char> {
        match self {
            ScalarTy::F32 => "f32"@,
            ScalarTy::F16 => "f16"@,
            ScalarTy::Bf16 => "bf16"@,
            ScalarTy::I8 => "i8"@,
            ScalarTy::I16 => "i16"@,
            ScalarTy::I32 => "i32"@,
            ScalarTy::I64 => "i64"@,
            ScalarTy::U8 => "u8"@,
            ScalarTy::U16 => "u16"@,
            ScalarTy::U32 => "u32"@,
            ScalarTy::U64 => "u64"@,
        }
    }

    pub fn name(self) -> (r: &'static str)
        ensures
            r@ == self.text(),
    {
        match self {
            ScalarTy::F32 => "f32",
            ScalarTy::F16 => "f16",
            ScalarTy::Bf16 => "bf16",
            ScalarTy::I8 => "i8",
            ScalarTy::I16 => "i16",
            ScalarTy::I32 => "i32",
            ScalarTy::I64 => "i64",
            ScalarTy::U8 => "u8",
            ScalarTy::U16 => "u16",
            ScalarTy::U32 => "u32",
            ScalarTy::U64 => "u64",
        }
    }
}

/// Whether a scalar is computed in floating point.
pub fn is_float_scalar(s: ScalarTy) -> (r: bool)
    ensures
        r == s.is_float(),
{
    match s {
        ScalarTy::F32 | ScalarTy::F16 | ScalarTy::Bf16 => true,
        _ => false,
    }
}

impl ResolvedTy {
    pub fn is_tensor(&self) -> (r: bool)
        ensures
            r == (self is Tensor),
    {
        matches!(self, ResolvedTy::Tensor { .. })
    }

    pub fn is_struct(&self) -> (r: bool)
        ensures
            r == (self is Struct),
    {
        matches!(self, ResolvedTy::Struct { .. })
    }

    pub fn is_enum(&self) -> (r: bool)
        ensures
            r == (self is Enum),
    {
        matches!(self, ResolvedTy::Enum { .. })
    }

    pub fn is_array(&self) -> (r: bool)
        ensures
            r == (self is Array),
    {
        matches!(self, ResolvedTy::Array { .. })
    }

    pub fn is_list(&self) -> (r: bool)
        ensures
            r == (self is List),
    {
        matches!(self, ResolvedTy::List { .. })
    }

    pub open spec fn dtype(self) -> Option<ScalarTy> {
        match self {
            ResolvedTy::Tensor { dtype } => Some(dtype),
            _ => None,
        }
    }

    /// Element type of a tensor type.
    pub fn tensor_dtype(&self) -> (r: Option<ScalarTy>)
        ensures
            r == self.dtype(),
    {
        match self {
            ResolvedTy::Tensor { dtype } => Some(*dtype),
            _ => None,
        }
    }

    /// Source-like rendering of a type, used in diagnostics.
    pub open spec fn text(self) -> Seq<char>
        decreases self, 0nat,
    {
        match self {
            ResolvedTy::Tensor { dtype } => "Tensor<"@ + dtype.text() + ">"@,
            ResolvedTy::Scalar(s) => s.text(),
            ResolvedTy::Bool => "bool"@,
            ResolvedTy::Unit => "()"@,
            ResolvedTy::Str => "str"@,
            ResolvedTy::Tuple(elems) => "("@ + tuple_text(elems@, elems@.len()) + ")"@,
            ResolvedTy::Struct { name, fields } => name@,
            ResolvedTy::Enum { name, variants } => name@,
            ResolvedTy::Array { elem, len } => "Array<"@ + elem.text() + ", "@
                + crate::text::decimal(len as nat) + ">"@,
            ResolvedTy::Buffer { dtype } => "Buffer<"@ + dtype.text() + ">"@,
            ResolvedTy::List { elem } => "List<"@ + elem.text() + ">"@,
        }
    }

    pub fn render(&self) -> (r: String)
        ensures
            r@ == self.text(),
        decreases self, 0nat,
    {
        match self {
            ResolvedTy::Tensor { dtype } => "Tensor<".to_string().concat(dtype.name()).concat(">"),
            ResolvedTy::Scalar(s) => s.name().to_string(),
            ResolvedTy::Bool => "bool".to_string(),
            ResolvedTy::Unit => "()".to_string(),
            ResolvedTy::Str => "str".to_string(),
            ResolvedTy::Tuple(elems) => {
                let inner = render_tuple(elems);
                "(".to_string().concat(inner.as_str()).concat(")")
            },
            ResolvedTy::Struct { name, fields } => name.clone(),
            ResolvedTy::Enum { name, variants } => name.clone(),
            ResolvedTy::Array { elem, len } => {
                let inner = elem.render();
                let n = crate::text::decimal_of(*len as u64);
                "Array<".to_string().concat(inner.as_str()).concat(", ").concat(n.as_str()).concat(
                    ">",
                )
            },
            ResolvedTy::Buffer { dtype } => "Buffer<".to_string().concat(dtype.name()).concat(">"),
            ResolvedTy::List { elem } => {
                let inner = elem.render();
                "List<".to_string().concat(inner.as_str()).concat(">")
            },
        }
    }
}

/// The first `n` element types of a tuple, separated by commas.
pub open spec fn tuple_text(elems: Seq<ResolvedTy>, n: nat) -> Seq<char>
    decreases elems, n,
{
    if n == 0 || n > elems.len() {
        Seq::empty()
    } else if n == 1 {
        elems[0].text()
    } else {
        tuple_text(elems, (n - 1) as nat) + ", "@ + elems[n - 1].text()
    }
}

fn render_tuple(elems: &Vec<ResolvedTy>) -> (r: String)
    ensures
        r@ == tuple_text(elems@, elems@.len()),
    decreases elems, elems@.len(),
{
    let mut out = String::new();
    let mut i: usize = 0;
    while i < elems.len()
        invariant
            i <= elems.len(),
            out@ == tuple_text(elems@, i as nat),
        decreases elems.len() - i,
    {
        let part = elems[i].render();
        if i > 0 {
            out.append(", ");
        }
        out.append(part.as_str());
        proof {
            if i == 0 {
                assert(out@ =~= part@);
            }
        }
        i = i + 1;
    }
    out
}

/// Name of the built-in kernel for an element-wise tensor operator.
pub fn elementwise_builtin_name(op: BinOp) -> (r: Option<&'static str>)
    ensures
        match r {
            Some(s) => op.elementwise_kernel() == Some(s@),
            None => op.elementwise_kernel() is None,
        },
{
    match op {
        BinOp::Add => Some("malus_add"),
        BinOp::Sub => Some("malus_sub"),
        BinOp::Mul => Some("malus_mul"),
        BinOp::Div => Some("malus_div"),
        _ => None,
    }
}

/// Name of the built-in kernel for a tensor operator with one scalar operand.
pub fn scalar_broadcast_builtin_name(op: BinOp, scalar_on_right: bool) -> (r: Option<&'static str>)
    ensures
        match r {
            Some(s) => op.scalar_broadcast_kernel(scalar_on_right) == Some(s@),
            None => op.scalar_broadcast_kernel(scalar_on_right) is None,
        },
{
    match op {
        BinOp::Add => Some("malus_add_scalar"),
        BinOp::Mul => Some("malus_mul_scalar"),
        BinOp::Sub => if scalar_on_right {
            Some("malus_sub_scalar")
        } else {
            Some("malus_rsub_scalar")
        },
        BinOp::Div => if scalar_on_right {
            Some("malus_div_scalar")
        } else {
            Some("malus_rdiv_scalar")
        },
        _ => None,
    }
}

impl BinOp {
    /// Name of the built-in kernel for an element-wise tensor operator.
    pub open spec fn elementwise_kernel(self) -> Option<Seq<char>> {
        match self {
            BinOp::Add => Some("malus_add"@),
            BinOp::Sub => Some("malus_sub"@),
            BinOp::Mul => Some("malus_mul"@),
            BinOp::Div => Some("malus_div"@),
            _ => None,
        }
    }

    /// Name of the built-in kernel for a tensor operator with one scalar
    /// operand. Addition and multiplication commute, so both orders share one
    /// kernel.
    pub open spec fn scalar_broadcast_kernel(self, scalar_on_right: bool) -> Option<Seq<char>> {
        match self {
            BinOp::Add => Some("malus_add_scalar"@),
            BinOp::Mul => Some("malus_mul_scalar"@),
            BinOp::Sub => Some(
                if scalar_on_right {
                    "malus_sub_scalar"@
                } else {
                    "malus_rsub_scalar"@
                },
            ),
            BinOp::Div => Some(
                if scalar_on_right {
                    "malus_div_scalar"@
                } else {
                    "malus_rdiv_scalar"@
                },
            ),
            _ => None,
        }
    }

    /// Name of the operator's variant, used in diagnostics.
    pub open spec fn text(self) -> Seq<char> {
        match self {
            BinOp::Add => "Add"@,
            BinOp::Sub => "Sub"@,
            BinOp::Mul => "Mul"@,
            BinOp::Div => "Div"@,
            BinOp::Matmul => "Matmul"@,
            BinOp::Eq => "Eq"@,
            BinOp::NotEq => "NotEq"@,
            BinOp::Lt => "Lt"@,
            BinOp::LtEq => "LtEq"@,
            BinOp::Gt => "Gt"@,
            BinOp::GtEq => "GtEq"@,
            BinOp::And => "And"@,
            BinOp::Or => "Or"@,
            BinOp::Pow => "Pow"@,
        }
    }

    pub fn name(self) -> (r: &'static str)
        ensures
            r@ == self.text(),
    {
        match self {
            BinOp::Add => "Add",
            BinOp::Sub => "Sub",
            BinOp::Mul => "Mul",
            BinOp::Div => "Div",
            BinOp::Matmul => "Matmul",
            BinOp::Eq => "Eq",
            BinOp::NotEq => "NotEq",
            BinOp::Lt => "Lt",
            BinOp::LtEq => "LtEq",
            BinOp::Gt => "Gt",
            BinOp::GtEq => "GtEq",
            BinOp::And => "And",
            BinOp::Or => "Or",
            BinOp::Pow => "Pow",
        }
    }
}

} // verus!
