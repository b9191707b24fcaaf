//! Kernels of the built-in tensor operations, and which of them a program
//! needs.

use crate::codegen_gpu::error;
use crate::codegen_gpu::error::{bad_body_at, CodegenError, Fail};
use crate::codegen_gpu::msl::binop_to_msl_infix;
use crate::text;
use crate::text::{decimal_of, same_text};
use crate::typed::{
    elementwise_builtin_name, scalar_broadcast_builtin_name, BinOp, ResolvedTy, TypedExpr,
    TypedExprKind, TypedFn, TypedMatchArm, TypedStmt,
};
use vstd::prelude::*;

verus! {

/// A mathematical function on tensors.
#[derive(Clone, Copy, Debug, PartialEq, Eq, Structural)]
pub enum UnaryFn {
    Abs,
    Exp,
    Log,
    Relu,
    Sigmoid,
    Sqrt,
    Tanh,
}

impl UnaryFn {
    pub open spec fn text(self) -> Seq<char> {
        match self {
            UnaryFn::Abs => "abs"@,
            UnaryFn::Exp => "exp"@,
            UnaryFn::Log => "log"@,
            UnaryFn::Relu => "relu"@,
            UnaryFn::Sigmoid => "sigmoid"@,
            UnaryFn::Sqrt => "sqrt"@,
            UnaryFn::Tanh => "tanh"@,
        }
    }

    pub fn name(self) -> (r: &'static str)
        ensures
            r@ == self.text(),
    {
        match self {
            UnaryFn::Abs => "abs",
            UnaryFn::Exp => "exp",
            UnaryFn::Log => "log",
            UnaryFn::Relu => "relu",
            UnaryFn::Sigmoid => "sigmoid",
            UnaryFn::Sqrt => "sqrt",
            UnaryFn::Tanh => "tanh",
        }
    }
}

/// A built-in operation that needs a kernel: on two tensors, on a tensor and a
/// scalar that stands on the right or on the left, or a function of a tensor.
#[derive(Clone, Copy, Debug, PartialEq, Eq, Structural)]
pub enum BuiltinKernel {
    Tensors(BinOp),
    Scalar { op: BinOp, right: bool },
    Unary(UnaryFn),
}

impl BuiltinKernel {
    /// Name under which the kernel is registered.
    pub open spec fn text(self) -> Option<Seq<char>> {
        match self {
            BuiltinKernel::Tensors(op) => op.elementwise_kernel(),
            BuiltinKernel::Scalar { op, right } => op.scalar_broadcast_kernel(right),
            BuiltinKernel::Unary(f) => Some(f.text()),
        }
    }

    pub fn name(self) -> (r: Option<&'static str>)
        ensures
            match r {
                Some(s) => self.text() == Some(s@),
                None => self.text() is None,
            },
    {
        match self {
            BuiltinKernel::Tensors(op) => elementwise_builtin_name(op),
            BuiltinKernel::Scalar { op, right } => scalar_broadcast_builtin_name(op, right),
            BuiltinKernel::Unary(f) => Some(f.name()),
        }
    }

    /// Whether an expression itself is the operation.
    pub open spec fn is(self, e: TypedExpr) -> bool {
        match e.kind {
            TypedExprKind::BinOp { op, lhs, rhs } => match self {
                BuiltinKernel::Tensors(o) => o == op && lhs.ty is Tensor && rhs.ty is Tensor,
                BuiltinKernel::Scalar { op: o, right } => o == op && if right {
                    lhs.ty is Tensor && rhs.ty is Scalar
                } else {
                    lhs.ty is Scalar && rhs.ty is Tensor
                },
                BuiltinKernel::Unary(_) => false,
            },
            TypedExprKind::Call { callee, .. } => match self {
                BuiltinKernel::Unary(f) => callee@ == f.text(),
                _ => false,
            },
            _ => false,
        }
    }

    /// Whether the operation occurs in an expression.
    pub open spec fn in_expr(self, e: TypedExpr) -> bool
        decreases e, 0nat,
    {
        self.is(e) || match e.kind {
            TypedExprKind::Lit(_) => false,
            TypedExprKind::Ident(_) => false,
            TypedExprKind::BinOp { lhs, rhs, .. } => self.in_expr(*lhs) || self.in_expr(*rhs),
            TypedExprKind::Unary { operand, .. } => self.in_expr(*operand),
            TypedExprKind::Call { args, .. } => self.in_exprs(args@, 0),
            TypedExprKind::KernelCall { args, .. } => self.in_exprs(args@, 0),
            TypedExprKind::TensorLiteral { elements, .. } => self.in_exprs(elements@, 0),
            TypedExprKind::Index { base, indices } => self.in_expr(*base) || self.in_exprs(
                indices@,
                0,
            ),
            TypedExprKind::ArrayLiteral { elements } => self.in_exprs(elements@, 0),
            TypedExprKind::FieldAccess { base, .. } => self.in_expr(*base),
            TypedExprKind::StructInit { fields, .. } => self.in_exprs(fields@, 0),
            TypedExprKind::EnumInit { payload, .. } => self.in_exprs(payload@, 0),
            TypedExprKind::TupleInit { elements } => self.in_exprs(elements@, 0),
            TypedExprKind::TupleIndex { base, .. } => self.in_expr(*base),
            TypedExprKind::KernelLaunch {
                grid,
                tg,
                out_shape,
                tensor_args,
                scalar_args,
                ..
            } => self.in_exprs(tensor_args@, 0) || self.in_exprs(scalar_args@, 0)
                || self.in_expr(*grid) || self.in_expr(*tg) || match out_shape {
                Some(s) => self.in_expr(*s),
                None => false,
            },
        }
    }

    pub open spec fn in_exprs(self, es: Seq<TypedExpr>, i: nat) -> bool
        decreases es, es.len() - i,
    {
        i < es.len() && (self.in_expr(es[i as int]) || self.in_exprs(es, i + 1))
    }

    /// Whether the operation occurs in a statement: in an expression that it
    /// evaluates, or in a statement inside it. The bounds of a counted loop,
    /// what a `for`-`in` loop walks and the place that an assignment writes to
    /// are not looked at.
    pub open spec fn in_stmt(self, s: TypedStmt) -> bool
        decreases s, 0nat,
    {
        match s {
            TypedStmt::Let { expr, .. } => self.in_expr(expr),
            TypedStmt::LetTuple { expr, .. } => self.in_expr(expr),
            TypedStmt::Assign { expr, .. } => self.in_expr(expr),
            TypedStmt::Return { expr } => self.in_expr(expr),
            TypedStmt::Expr(expr) => self.in_expr(expr),
            TypedStmt::If { condition, then_body, else_body } => self.in_expr(condition)
                || self.in_body(then_body@, 0) || match else_body {
                Some(b) => self.in_body(b@, 0),
                None => false,
            },
            TypedStmt::For { body, .. } => self.in_body(body@, 0),
            TypedStmt::While { condition, body } => self.in_expr(condition) || self.in_body(
                body@,
                0,
            ),
            TypedStmt::ForIn { body, .. } => self.in_body(body@, 0),
            TypedStmt::Match { scrutinee, arms } => self.in_expr(scrutinee) || self.in_arms(
                arms@,
                0,
            ),
            TypedStmt::NoGrad { body } => self.in_body(body@, 0),
            _ => false,
        }
    }

    pub open spec fn in_body(self, body: Seq<TypedStmt>, i: nat) -> bool
        decreases body, body.len() - i,
    {
        i < body.len() && (self.in_stmt(body[i as int]) || self.in_body(body, i + 1))
    }

    pub open spec fn in_arms(self, arms: Seq<TypedMatchArm>, i: nat) -> bool
        decreases arms, arms.len() - i,
    {
        i < arms.len() && (self.in_body(arms[i as int].body@, 0) || self.in_arms(arms, i + 1))
    }

    /// Whether the operation occurs in a function from position `i` on.
    pub open spec fn in_fns(self, fns: Seq<TypedFn>, i: nat) -> bool
        decreases fns.len() - i,
    {
        i < fns.len() && (self.in_body(fns[i as int].body@, 0) || self.in_fns(fns, i + 1))
    }

    fn is_expr(self, e: &TypedExpr) -> (r: bool)
        ensures
            r == self.is(*e),
    {
        match &e.kind {
            TypedExprKind::BinOp { op, lhs, rhs } => match self {
                BuiltinKernel::Tensors(o) => o == *op && lhs.ty.is_tensor() && rhs.ty.is_tensor(),
                BuiltinKernel::Scalar { op: o, right } => {
                    if o != *op {
                        false
                    } else if right {
                        lhs.ty.is_tensor() && matches!(rhs.ty, ResolvedTy::Scalar(_))
                    } else {
                        matches!(lhs.ty, ResolvedTy::Scalar(_)) && rhs.ty.is_tensor()
                    }
                },
                BuiltinKernel::Unary(_) => false,
            },
            TypedExprKind::Call { callee, .. } => match self {
                BuiltinKernel::Unary(f) => same_text(callee.as_str(), f.name()),
                _ => false,
            },
            _ => false,
        }
    }

    #[verifier::spinoff_prover]
    fn expr_needs(self, e: &TypedExpr) -> (r: bool)
        ensures
            r == self.in_expr(*e),
        decreases e, 0nat,
    {
        if self.is_expr(e) {
            return true;
        }
        match &e.kind {
            TypedExprKind::Lit(_) => false,
            TypedExprKind::Ident(_) => false,
            TypedExprKind::BinOp { lhs, rhs, .. } => self.expr_needs(lhs) || self.expr_needs(rhs),
            TypedExprKind::Unary { operand, .. } => self.expr_needs(operand),
            TypedExprKind::Call { args, .. } => self.exprs_need(args),
            TypedExprKind::KernelCall { args, .. } => self.exprs_need(args),
            TypedExprKind::TensorLiteral { elements, .. } => self.exprs_need(elements),
            TypedExprKind::Index { base, indices } => self.expr_needs(base) || self.exprs_need(
                indices,
            ),
            TypedExprKind::ArrayLiteral { elements } => self.exprs_need(elements),
            TypedExprKind::FieldAccess { base, .. } => self.expr_needs(base),
            TypedExprKind::StructInit { fields, .. } => self.exprs_need(fields),
            TypedExprKind::EnumInit { payload, .. } => self.exprs_need(payload),
            TypedExprKind::TupleInit { elements } => self.exprs_need(elements),
            TypedExprKind::TupleIndex { base, .. } => self.expr_needs(base),
            TypedExprKind::KernelLaunch {
                grid,
                tg,
                out_shape,
                tensor_args,
                scalar_args,
                ..
            } => {
                if self.exprs_need(tensor_args) || self.exprs_need(scalar_args)
                    || self.expr_needs(grid) || self.expr_needs(tg) {
                    return true;
                }
                match out_shape {
                    Some(s) => self.expr_needs(s),
                    None => false,
                }
            },
        }
    }

    fn exprs_need(self, es: &Vec<TypedExpr>) -> (r: bool)
        ensures
            r == self.in_exprs(es@, 0),
        decreases es, es.len(),
    {
        let mut i: usize = 0;
        while i < es.len()
            invariant
                i <= es.len(),
                self.in_exprs(es@, 0) == self.in_exprs(es@, i as nat),
            decreases es.len() - i,
        {
            if self.expr_needs(&es[i]) {
                return true;
            }
            i = i + 1;
        }
        false
    }

    #[verifier::spinoff_prover]
    fn stmt_needs(self, s: &TypedStmt) -> (r: bool)
        ensures
            r == self.in_stmt(*s),
        decreases s, 0nat,
    {
        match s {
            TypedStmt::Let { expr, .. } => self.expr_needs(expr),
            TypedStmt::LetTuple { expr, .. } => self.expr_needs(expr),
            TypedStmt::Assign { expr, .. } => self.expr_needs(expr),
            TypedStmt::Return { expr } => self.expr_needs(expr),
            TypedStmt::Expr(expr) => self.expr_needs(expr),
            TypedStmt::If { condition, then_body, else_body } => {
                if self.expr_needs(condition) || self.body_needs(then_body) {
                    return true;
                }
                match else_body {
                    Some(b) => self.body_needs(b),
                    None => false,
                }
            },
            TypedStmt::For { body, .. } => self.body_needs(body),
            TypedStmt::While { condition, body } => self.expr_needs(condition)
                || self.body_needs(body),
            TypedStmt::ForIn { body, .. } => self.body_needs(body),
            TypedStmt::Match { scrutinee, arms } => self.expr_needs(scrutinee)
                || self.arms_need(arms),
            TypedStmt::NoGrad { body } => self.body_needs(body),
            _ => false,
        }
    }

    fn body_needs(self, body: &Vec<TypedStmt>) -> (r: bool)
        ensures
            r == self.in_body(body@, 0),
        decreases body, body.len(),
    {
        let mut i: usize = 0;
        while i < body.len()
            invariant
                i <= body.len(),
                self.in_body(body@, 0) == self.in_body(body@, i as nat),
            decreases body.len() - i,
        {
            if self.stmt_needs(&body[i]) {
                return true;
            }
            i = i + 1;
        }
        false
    }

    fn arms_need(self, arms: &Vec<TypedMatchArm>) -> (r: bool)
        ensures
            r == self.in_arms(arms@, 0),
        decreases arms, arms.len(),
    {
        let mut i: usize = 0;
        while i < arms.len()
            invariant
                i <= arms.len(),
                self.in_arms(arms@, 0) == self.in_arms(arms@, i as nat),
            decreases arms.len() - i,
        {
            if self.body_needs(&arms[i].body) {
                return true;
            }
            i = i + 1;
        }
        false
    }

    /// Whether the operation occurs in a function.
    pub fn fns_need(self, fns: &Vec<TypedFn>) -> (r: bool)
        ensures
            r == self.in_fns(fns@, 0),
    {
        let mut i: usize = 0;
        while i < fns.len()
            invariant
                i <= fns.len(),
                self.in_fns(fns@, 0) == self.in_fns(fns@, i as nat),
            decreases fns.len() - i,
        {
            if self.body_needs(&fns[i].body) {
                return true;
            }
            i = i + 1;
        }
        false
    }
}

/// What a function computes from the element of its operand.
pub open spec fn unary_formula(name: Seq<char>) -> Option<Seq<char>> {
    if name == "relu"@ {
        Some("fmax(0.0f, a[tid])"@)
    } else if name == "sigmoid"@ {
        Some("1.0f / (1.0f + exp(-a[tid]))"@)
    } else if name == "tanh"@ {
        Some("tanh(a[tid])"@)
    } else if name == "exp"@ {
        Some("exp(a[tid])"@)
    } else if name == "log"@ {
        Some("log(a[tid])"@)
    } else if name == "sqrt"@ {
        Some("sqrt(a[tid])"@)
    } else if name == "abs"@ {
        Some("fabs(a[tid])"@)
    } else {
        None
    }
}

/// The kernel of a function.
pub open spec fn unary_source(name: Seq<char>, id: u64) -> Result<Seq<char>, Fail> {
    match unary_formula(name) {
        None => Err(Fail::UnsupportedKernelBody("unknown unary builtin: "@ + name)),
        Some(f) => Ok(
            "#include <metal_stdlib>\nusing namespace metal;\n\nkernel void malus_kernel_"@
                + text::decimal(id as nat)
                + "(\n    device float* a [[buffer(0)]],\n    device float* out [[buffer(1)]],\n    uint tid [[thread_position_in_grid]]\n) {\n    out[tid] = "@
                + f + ";\n}\n"@,
        ),
    }
}

/// The kernel of a function.
pub fn synthesize_unary_builtin(name: &str, kernel_id: u64) -> (r: Result<String, CodegenError>)
    ensures
        error::produces(r, unary_source(name@, kernel_id)),
{
    let f: &str = if same_text(name, "relu") {
        "fmax(0.0f, a[tid])"
    } else if same_text(name, "sigmoid") {
        "1.0f / (1.0f + exp(-a[tid]))"
    } else if same_text(name, "tanh") {
        "tanh(a[tid])"
    } else if same_text(name, "exp") {
        "exp(a[tid])"
    } else if same_text(name, "log") {
        "log(a[tid])"
    } else if same_text(name, "sqrt") {
        "sqrt(a[tid])"
    } else if same_text(name, "abs") {
        "fabs(a[tid])"
    } else {
        return Err(bad_body_at("unknown unary builtin: ", name));
    };
    let mut s =
        "#include <metal_stdlib>\nusing namespace metal;\n\nkernel void malus_kernel_".to_string();
    s.append(decimal_of(kernel_id).as_str());
    s.append(
        "(\n    device float* a [[buffer(0)]],\n    device float* out [[buffer(1)]],\n    uint tid [[thread_position_in_grid]]\n) {\n    out[tid] = ",
    );
    s.append(f);
    s.append(";\n}\n");
    Ok(s)
}

/// The kernel of an operation on two tensors.
pub open spec fn elementwise_source(op: BinOp, id: u64) -> Result<Seq<char>, Fail> {
    match op.msl() {
        Err(x) => Err(x),
        Ok(o) => Ok(
            "#include <metal_stdlib>\nusing namespace metal;\n\nkernel void malus_kernel_"@
                + text::decimal(id as nat)
                + "(\n    device float* a [[buffer(0)]],\n    device float* b [[buffer(1)]],\n    device float* out [[buffer(2)]],\n    uint tid [[thread_position_in_grid]]\n) {\n    out[tid] = (a[tid] "@
                + o + " b[tid]);\n}\n"@,
        ),
    }
}

/// The kernel of an operation on two tensors.
pub fn synthesize_elementwise_builtin(op: BinOp, kernel_id: u64) -> (r: Result<
    String,
    CodegenError,
>)
    ensures
        error::produces(r, elementwise_source(op, kernel_id)),
{
    let o = match binop_to_msl_infix(op) {
        Ok(s) => s,
        Err(x) => {
            return Err(x);
        },
    };
    let mut s =
        "#include <metal_stdlib>\nusing namespace metal;\n\nkernel void malus_kernel_".to_string();
    s.append(decimal_of(kernel_id).as_str());
    s.append(
        "(\n    device float* a [[buffer(0)]],\n    device float* b [[buffer(1)]],\n    device float* out [[buffer(2)]],\n    uint tid [[thread_position_in_grid]]\n) {\n    out[tid] = (a[tid] ",
    );
    s.append(o);
    s.append(" b[tid]);\n}\n");
    Ok(s)
}

/// The kernel of an operation on a tensor and a scalar.
pub open spec fn scalar_source(op: BinOp, right: bool, id: u64) -> Result<Seq<char>, Fail> {
    match op.msl() {
        Err(x) => Err(x),
        Ok(o) => Ok(
            "#include <metal_stdlib>\nusing namespace metal;\n\nkernel void malus_kernel_"@
                + text::decimal(id as nat)
                + "(\n    device float* a [[buffer(0)]],\n    device float* scalar_val [[buffer(1)]],\n    device float* out [[buffer(2)]],\n    uint tid [[thread_position_in_grid]]\n) {\n    out[tid] = "@
                + (if right {
                "(a[tid] "@ + o + " scalar_val[0])"@
            } else {
                "(scalar_val[0] "@ + o + " a[tid])"@
            }) + ";\n}\n"@,
        ),
    }
}

/// The kernel of an operation on a tensor and a scalar.
pub fn synthesize_scalar_builtin(op: BinOp, scalar_on_right: bool, kernel_id: u64) -> (r: Result<
    String,
    CodegenError,
>)
    ensures
        error::produces(r, scalar_source(op, scalar_on_right, kernel_id)),
{
    let o = match binop_to_msl_infix(op) {
        Ok(s) => s,
        Err(x) => {
            return Err(x);
        },
    };
    let expr: String = if scalar_on_right {
        "(a[tid] ".to_string().concat(o).concat(" scalar_val[0])")
    } else {
        "(scalar_val[0] ".to_string().concat(o).concat(" a[tid])")
    };
    let mut s =
        "#include <metal_stdlib>\nusing namespace metal;\n\nkernel void malus_kernel_".to_string();
    s.append(decimal_of(kernel_id).as_str());
    s.append(
        "(\n    device float* a [[buffer(0)]],\n    device float* scalar_val [[buffer(1)]],\n    device float* out [[buffer(2)]],\n    uint tid [[thread_position_in_grid]]\n) {\n    out[tid] = ",
    );
    s.append(expr.as_str());
    s.append(";\n}\n");
    Ok(s)
}

impl BuiltinKernel {
    /// The source of the kernel.
    pub open spec fn source(self, id: u64) -> Result<Seq<char>, Fail> {
        match self {
            BuiltinKernel::Tensors(op) => elementwise_source(op, id),
            BuiltinKernel::Scalar { op, right } => scalar_source(op, right, id),
            BuiltinKernel::Unary(f) => unary_source(f.text(), id),
        }
    }

    pub fn synthesize(self, id: u64) -> (r: Result<String, CodegenError>)
        ensures
            error::produces(r, self.source(id)),
    {
        match self {
            BuiltinKernel::Tensors(op) => synthesize_elementwise_builtin(op, id),
            BuiltinKernel::Scalar { op, right } => synthesize_scalar_builtin(op, right, id),
            BuiltinKernel::Unary(f) => synthesize_unary_builtin(f.name(), id),
        }
    }
}

} // verus!
