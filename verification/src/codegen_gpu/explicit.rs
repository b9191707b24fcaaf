//! Kernels that write their output themselves, with the thread hierarchy,
//! shared memory and control flow at hand.

use crate::codegen_gpu::error;
use crate::codegen_gpu::error::{bad_body, bad_body_at, CodegenError, Fail};
use crate::codegen_gpu::msl::{
    binop_to_msl_infix, dtype_to_msl, lower_lit, resolved_ty_to_msl,
};
use crate::text;
use crate::text::{decimal_of, has_text, join, push_text, same_text};
use crate::typed::{
    BinOp, TypedAssignTarget, TypedExpr, TypedExprKind,
    TypedStmt, UnaryOp,
};
use vstd::prelude::*;

verus! {

/// A value that the thread hierarchy provides.
#[derive(Clone, Copy, Debug, PartialEq, Eq, Structural)]
pub enum Intrinsic {
    ThreadId,
    ThreadgroupId,
    ThreadInThreadgroup,
    ThreadsPerThreadgroup,
    ThreadsPerGrid,
}

impl Intrinsic {
    /// Name of the function that reads it.
    pub open spec fn text(self) -> Seq<char> {
        match self {
            Intrinsic::ThreadId => "thread_id"@,
            Intrinsic::ThreadgroupId => "threadgroup_id"@,
            Intrinsic::ThreadInThreadgroup => "thread_in_threadgroup"@,
            Intrinsic::ThreadsPerThreadgroup => "threads_per_threadgroup"@,
            Intrinsic::ThreadsPerGrid => "threads_per_grid"@,
        }
    }

    /// Name of the kernel parameter that holds it.
    pub open spec fn holder(self) -> Seq<char> {
        match self {
            Intrinsic::ThreadId => "_tid"@,
            Intrinsic::ThreadgroupId => "_tgid"@,
            Intrinsic::ThreadInThreadgroup => "_lid"@,
            Intrinsic::ThreadsPerThreadgroup => "_tgsize"@,
            Intrinsic::ThreadsPerGrid => "_gridsize"@,
        }
    }

    /// Attribute of that parameter.
    pub open spec fn attribute(self) -> Seq<char> {
        match self {
            Intrinsic::ThreadId => "thread_position_in_grid"@,
            Intrinsic::ThreadgroupId => "threadgroup_position_in_grid"@,
            Intrinsic::ThreadInThreadgroup => "thread_position_in_threadgroup"@,
            Intrinsic::ThreadsPerThreadgroup => "threads_per_threadgroup"@,
            Intrinsic::ThreadsPerGrid => "threads_per_grid"@,
        }
    }

    pub fn name(self) -> (r: &'static str)
        ensures
            r@ == self.text(),
    {
        match self {
            Intrinsic::ThreadId => "thread_id",
            Intrinsic::ThreadgroupId => "threadgroup_id",
            Intrinsic::ThreadInThreadgroup => "thread_in_threadgroup",
            Intrinsic::ThreadsPerThreadgroup => "threads_per_threadgroup",
            Intrinsic::ThreadsPerGrid => "threads_per_grid",
        }
    }

    pub fn var(self) -> (r: &'static str)
        ensures
            r@ == self.holder(),
    {
        match self {
            Intrinsic::ThreadId => "_tid",
            Intrinsic::ThreadgroupId => "_tgid",
            Intrinsic::ThreadInThreadgroup => "_lid",
            Intrinsic::ThreadsPerThreadgroup => "_tgsize",
            Intrinsic::ThreadsPerGrid => "_gridsize",
        }
    }

    pub fn attr(self) -> (r: &'static str)
        ensures
            r@ == self.attribute(),
    {
        match self {
            Intrinsic::ThreadId => "thread_position_in_grid",
            Intrinsic::ThreadgroupId => "threadgroup_position_in_grid",
            Intrinsic::ThreadInThreadgroup => "thread_position_in_threadgroup",
            Intrinsic::ThreadsPerThreadgroup => "threads_per_threadgroup",
            Intrinsic::ThreadsPerGrid => "threads_per_grid",
        }
    }
}

/// The parameter that holds what a function of the thread hierarchy reads.
pub open spec fn intrinsic_holder(name: Seq<char>) -> Option<Seq<char>> {
    if name == "thread_id"@ {
        Some("_tid"@)
    } else if name == "threadgroup_id"@ {
        Some("_tgid"@)
    } else if name == "thread_in_threadgroup"@ {
        Some("_lid"@)
    } else if name == "threads_per_threadgroup"@ {
        Some("_tgsize"@)
    } else if name == "threads_per_grid"@ {
        Some("_gridsize"@)
    } else {
        None
    }
}

/// The parameter that holds what a function of the thread hierarchy reads.
pub fn intrinsic_var(name: &str) -> (r: Option<&'static str>)
    ensures
        match r {
            Some(v) => intrinsic_holder(name@) == Some(v@),
            None => intrinsic_holder(name@) is None,
        },
{
    if same_text(name, "thread_id") {
        Some("_tid")
    } else if same_text(name, "threadgroup_id") {
        Some("_tgid")
    } else if same_text(name, "thread_in_threadgroup") {
        Some("_lid")
    } else if same_text(name, "threads_per_threadgroup") {
        Some("_tgsize")
    } else if same_text(name, "threads_per_grid") {
        Some("_gridsize")
    } else {
        None
    }
}

impl TypedExpr {
    /// Whether an expression calls a function of the thread hierarchy.
    pub open spec fn reads(self, x: Intrinsic) -> bool
        decreases self, 0nat,
    {
        match self.kind {
            TypedExprKind::Call { callee, args } => callee@ == x.text() || any_reads(args@, x, 0),
            TypedExprKind::BinOp { lhs, rhs, .. } => lhs.reads(x) || rhs.reads(x),
            TypedExprKind::Unary { operand, .. } => operand.reads(x),
            TypedExprKind::Index { base, indices } => base.reads(x) || any_reads(indices@, x, 0),
            _ => false,
        }
    }
}

/// Whether an expression from position `i` on calls a function of the thread
/// hierarchy.
pub open spec fn any_reads(es: Seq<TypedExpr>, x: Intrinsic, i: nat) -> bool
    decreases es, es.len() - i,
{
    i < es.len() && (es[i as int].reads(x) || any_reads(es, x, i + 1))
}

impl TypedAssignTarget {
    /// Whether the place that an assignment writes to depends on a value of
    /// the thread hierarchy.
    pub open spec fn reads(self, x: Intrinsic) -> bool {
        match self {
            TypedAssignTarget::Ident(_) => false,
            TypedAssignTarget::Index { index, .. } => index.reads(x),
            TypedAssignTarget::ListIndex { index, .. } => index.reads(x),
            TypedAssignTarget::Field { .. } => false,
            TypedAssignTarget::BufferIndex { index, .. } => index.reads(x),
        }
    }
}

impl TypedStmt {
    /// Whether a statement reads a value of the thread hierarchy.
    pub open spec fn reads(self, x: Intrinsic) -> bool
        decreases self, 0nat,
    {
        match self {
            TypedStmt::Let { expr, .. } => expr.reads(x),
            TypedStmt::Return { expr } => expr.reads(x),
            TypedStmt::Assign { target, expr } => target.reads(x) || expr.reads(x),
            TypedStmt::Expr(expr) => expr.reads(x),
            TypedStmt::If { condition, then_body, else_body } => condition.reads(x) || body_reads(
                then_body@,
                x,
                0,
            ) || match else_body {
                Some(b) => body_reads(b@, x, 0),
                None => false,
            },
            TypedStmt::For { start, end, body, .. } => start.reads(x) || end.reads(x)
                || body_reads(body@, x, 0),
            TypedStmt::While { condition, body } => condition.reads(x) || body_reads(
                body@,
                x,
                0,
            ),
            _ => false,
        }
    }
}

/// Whether a statement from position `i` on reads a value of the thread
/// hierarchy.
pub open spec fn body_reads(body: Seq<TypedStmt>, x: Intrinsic, i: nat) -> bool
    decreases body, body.len() - i,
{
    i < body.len() && (body[i as int].reads(x) || body_reads(body, x, i + 1))
}

fn expr_reads(e: &TypedExpr, x: Intrinsic) -> (r: bool)
    ensures
        r == e.reads(x),
    decreases e, 0nat,
{
    match &e.kind {
        TypedExprKind::Call { callee, args } => same_text(callee.as_str(), x.name())
            || any_expr_reads(args, x),
        TypedExprKind::BinOp { lhs, rhs, .. } => expr_reads(lhs, x) || expr_reads(rhs, x),
        TypedExprKind::Unary { operand, .. } => expr_reads(operand, x),
        TypedExprKind::Index { base, indices } => expr_reads(base, x) || any_expr_reads(
            indices,
            x,
        ),
        _ => false,
    }
}

fn any_expr_reads(es: &Vec<TypedExpr>, x: Intrinsic) -> (r: bool)
    ensures
        r == any_reads(es@, x, 0),
    decreases es, es.len(),
{
    let mut i: usize = 0;
    while i < es.len()
        invariant
            i <= es.len(),
            any_reads(es@, x, 0) == any_reads(es@, x, i as nat),
        decreases es.len() - i,
    {
        if expr_reads(&es[i], x) {
            return true;
        }
        i = i + 1;
    }
    false
}

fn target_reads(t: &TypedAssignTarget, x: Intrinsic) -> (r: bool)
    ensures
        r == t.reads(x),
{
    match t {
        TypedAssignTarget::Ident(_) => false,
        TypedAssignTarget::Index { index, .. } => expr_reads(index, x),
        TypedAssignTarget::ListIndex { index, .. } => expr_reads(index, x),
        TypedAssignTarget::Field { .. } => false,
        TypedAssignTarget::BufferIndex { index, .. } => expr_reads(index, x),
    }
}

fn stmt_reads(s: &TypedStmt, x: Intrinsic) -> (r: bool)
    ensures
        r == s.reads(x),
    decreases s, 0nat,
{
    match s {
        TypedStmt::Let { expr, .. } => expr_reads(expr, x),
        TypedStmt::Return { expr } => expr_reads(expr, x),
        TypedStmt::Assign { target, expr } => target_reads(target, x) || expr_reads(expr, x),
        TypedStmt::Expr(expr) => expr_reads(expr, x),
        TypedStmt::If { condition, then_body, else_body } => {
            if expr_reads(condition, x) || any_stmt_reads(then_body, x) {
                return true;
            }
            match else_body {
                Some(b) => any_stmt_reads(b, x),
                None => false,
            }
        },
        TypedStmt::For { start, end, body, .. } => expr_reads(start, x) || expr_reads(end, x)
            || any_stmt_reads(body, x),
        TypedStmt::While { condition, body } => expr_reads(condition, x) || any_stmt_reads(
            body,
            x,
        ),
        _ => false,
    }
}

pub(crate) fn any_stmt_reads(body: &Vec<TypedStmt>, x: Intrinsic) -> (r: bool)
    ensures
        r == body_reads(body@, x, 0),
    decreases body, body.len(),
{
    let mut i: usize = 0;
    while i < body.len()
        invariant
            i <= body.len(),
            body_reads(body@, x, 0) == body_reads(body@, x, i as nat),
        decreases body.len() - i,
    {
        if stmt_reads(&body[i], x) {
            return true;
        }
        i = i + 1;
    }
    false
}

/// Parameter names of a kernel: its tensors and its scalars.
#[derive(Debug)]
pub struct KernelCtx {
    pub tensors: Vec<String>,
    pub scalars: Vec<String>,
}

/// Model of [`KernelCtx`].
pub struct Names {
    pub tensors: Seq<Seq<char>>,
    pub scalars: Seq<Seq<char>>,
}

impl View for KernelCtx {
    type V = Names;

    open spec fn view(&self) -> Names {
        Names { tensors: text::texts(self.tensors@), scalars: text::texts(self.scalars@) }
    }
}

/// The name of a tensor whose shape is asked for.
pub open spec fn tensor_name(e: TypedExpr) -> Result<Seq<char>, Fail> {
    match e.kind {
        TypedExprKind::Ident(name) => Ok(name@),
        other => Err(
            Fail::UnsupportedKernelBody(
                "shape/stride/ndim access requires a simple tensor parameter name, got "@
                    + other.variant_debug(),
            ),
        ),
    }
}

/// The function of the kernel language for a call, where there is one.
pub open spec fn math_fn(callee: Seq<char>) -> Option<Seq<char>> {
    if callee == "exp"@ {
        Some("exp"@)
    } else if callee == "log"@ {
        Some("log"@)
    } else if callee == "sqrt"@ {
        Some("sqrt"@)
    } else if callee == "rsqrt"@ {
        Some("rsqrt"@)
    } else if callee == "tanh"@ {
        Some("tanh"@)
    } else if callee == "abs"@ {
        Some("fabs"@)
    } else if callee == "fmax"@ {
        Some("fmax"@)
    } else if callee == "fmin"@ {
        Some("fmin"@)
    } else if callee == "pow"@ {
        Some("pow"@)
    } else {
        None
    }
}

fn math_fn_of(callee: &str) -> (r: Option<&'static str>)
    ensures
        match r {
            Some(v) => math_fn(callee@) == Some(v@),
            None => math_fn(callee@) is None,
        },
{
    if same_text(callee, "exp") {
        Some("exp")
    } else if same_text(callee, "log") {
        Some("log")
    } else if same_text(callee, "sqrt") {
        Some("sqrt")
    } else if same_text(callee, "rsqrt") {
        Some("rsqrt")
    } else if same_text(callee, "tanh") {
        Some("tanh")
    } else if same_text(callee, "abs") {
        Some("fabs")
    } else if same_text(callee, "fmax") {
        Some("fmax")
    } else if same_text(callee, "fmin") {
        Some("fmin")
    } else if same_text(callee, "pow") {
        Some("pow")
    } else {
        None
    }
}

impl Names {
    /// An expression of a kernel.
    pub open spec fn expr(self, e: TypedExpr) -> Result<Seq<char>, Fail>
        decreases e, 2nat,
    {
        match e.kind {
            TypedExprKind::Ident(name) => if self.tensors.contains(name@) || name@ == "out"@ {
                Ok(name@)
            } else if self.scalars.contains(name@) {
                Ok("u."@ + name@)
            } else {
                Ok(name@)
            },
            TypedExprKind::Lit(lit) => lit.msl(),
            TypedExprKind::BinOp { op, lhs, rhs } => match self.expr(*lhs) {
                Err(x) => Err(x),
                Ok(l) => match self.expr(*rhs) {
                    Err(x) => Err(x),
                    Ok(r) => if op == BinOp::Pow {
                        Ok("pow("@ + l + ", "@ + r + ")"@)
                    } else {
                        match op.msl() {
                            Err(x) => Err(x),
                            Ok(o) => Ok("("@ + l + " "@ + o + " "@ + r + ")"@),
                        }
                    },
                },
            },
            TypedExprKind::Unary { op, operand } => match self.expr(*operand) {
                Err(x) => Err(x),
                Ok(v) => match op {
                    UnaryOp::Neg => Ok("(-"@ + v + ")"@),
                    UnaryOp::Not => Ok("(!"@ + v + ")"@),
                },
            },
            TypedExprKind::Index { base, indices } => match base.kind {
                TypedExprKind::FieldAccess { base: of, field } => if field@ == "shape"@ || field@
                    == "strides"@ {
                    if indices@.len() != 1 {
                        Err(
                            Fail::UnsupportedKernelBody(
                                "shape/strides index must be single-dimensional"@,
                            ),
                        )
                    } else {
                        match tensor_name(*of) {
                            Err(x) => Err(x),
                            Ok(t) => match self.expr(indices@[0]) {
                                Err(x) => Err(x),
                                Ok(i) => Ok(
                                    "(int)"@ + t + "_meta."@ + field@ + "["@ + i + "]"@,
                                ),
                            },
                        }
                    }
                } else {
                    self.element(e)
                },
                _ => self.element(e),
            },
            TypedExprKind::FieldAccess { base, field } => if field@ == "ndim"@ {
                match tensor_name(*base) {
                    Err(x) => Err(x),
                    Ok(t) => Ok("(int)"@ + t + "_meta.ndim"@),
                }
            } else {
                Err(
                    Fail::UnsupportedKernelBody(
                        "field '"@ + field@ + "' on tensor must be indexed (e.g. t.shape[i])"@,
                    ),
                )
            },
            TypedExprKind::Call { callee, args } => match intrinsic_holder(callee@) {
                Some(v) => Ok("(int)"@ + v),
                None => if callee@ == "barrier"@ {
                    Ok("threadgroup_barrier(mem_flags::mem_threadgroup)"@)
                } else if callee@ == "relu"@ || callee@ == "sigmoid"@ {
                    if args@.len() == 0 {
                        Err(Fail::UnsupportedKernelBody("missing argument"@))
                    } else {
                        match self.expr(args@[0]) {
                            Err(x) => Err(x),
                            Ok(a) => if callee@ == "relu"@ {
                                Ok("fmax(0.0f, "@ + a + ")"@)
                            } else {
                                Ok("(1.0f / (1.0f + exp(-"@ + a + ")))"@)
                            },
                        }
                    }
                } else {
                    match math_fn(callee@) {
                        None => Err(
                            Fail::UnsupportedKernelBody(
                                "unsupported call in explicit kernel body: "@ + callee@,
                            ),
                        ),
                        Some(f) => match self.exprs(args@, 0, Seq::empty()) {
                            Err(x) => Err(x),
                            Ok(parts) => Ok(
                                f + "("@ + text::joined(parts, ", "@, parts.len()) + ")"@,
                            ),
                        },
                    }
                },
            },
            other => Err(
                Fail::UnsupportedKernelBody(
                    "unsupported expression kind in explicit kernel: "@ + other.variant_debug(),
                ),
            ),
        }
    }

    /// An element of a tensor: one index is a position, several are combined
    /// with the strides.
    pub open spec fn element(self, e: TypedExpr) -> Result<Seq<char>, Fail>
        decreases e, 1nat,
    {
        match e.kind {
            TypedExprKind::Index { base, indices } => if indices@.len() > 1 {
                match tensor_name(*base) {
                    Err(x) => Err(x),
                    Ok(t) => match self.strided(t, indices@, 0, Seq::empty()) {
                        Err(x) => Err(x),
                        Ok(parts) => Ok(
                            t + "["@ + text::joined(parts, " + "@, parts.len()) + "]"@,
                        ),
                    },
                }
            } else {
                match self.expr(*base) {
                    Err(x) => Err(x),
                    Ok(b) => if indices@.len() == 0 {
                        Err(Fail::UnsupportedKernelBody("missing index"@))
                    } else {
                        match self.expr(indices@[0]) {
                            Err(x) => Err(x),
                            Ok(i) => Ok(b + "["@ + i + "]"@),
                        }
                    },
                }
            },
            _ => Err(Fail::UnsupportedKernelBody("missing index"@)),
        }
    }

    /// Expressions from position `i` on.
    pub open spec fn exprs(self, es: Seq<TypedExpr>, i: nat, done: Seq<Seq<char>>) -> Result<
        Seq<Seq<char>>,
        Fail,
    >
        decreases es, es.len() - i,
    {
        if i >= es.len() {
            Ok(done)
        } else {
            match self.expr(es[i as int]) {
                Err(x) => Err(x),
                Ok(s) => self.exprs(es, i + 1, done.push(s)),
            }
        }
    }

    /// Indices from position `i` on, each times the stride of its dimension.
    pub open spec fn strided(
        self,
        tensor: Seq<char>,
        es: Seq<TypedExpr>,
        i: nat,
        done: Seq<Seq<char>>,
    ) -> Result<Seq<Seq<char>>, Fail>
        decreases es, es.len() - i,
    {
        if i >= es.len() {
            Ok(done)
        } else {
            match self.expr(es[i as int]) {
                Err(x) => Err(x),
                Ok(s) => self.strided(
                    tensor,
                    es,
                    i + 1,
                    done.push(
                        "("@ + s + ") * (int)"@ + tensor + "_meta.strides["@ + text::decimal(i)
                            + "]"@,
                    ),
                ),
            }
        }
    }

    /// A statement of a kernel, as lines behind `out`.
    pub open spec fn stmt(self, s: TypedStmt, indent: Seq<char>, out: Seq<Seq<char>>) -> Result<
        Seq<Seq<char>>,
        Fail,
    >
        decreases s, 0nat,
    {
        match s {
            TypedStmt::Let { name, expr } => match expr.ty.msl() {
                Err(x) => Err(x),
                Ok(ty) => match self.expr(expr) {
                    Err(x) => Err(x),
                    Ok(v) => Ok(out.push(indent + ty + " "@ + name@ + " = "@ + v + ";"@)),
                },
            },
            TypedStmt::LetShared { name, elem_ty, size } => Ok(
                out.push(
                    indent + "threadgroup "@ + elem_ty.msl() + " "@ + name@ + "["@
                        + text::decimal(size as nat) + "];"@,
                ),
            ),
            TypedStmt::Assign { target, expr } => match self.expr(expr) {
                Err(x) => Err(x),
                Ok(v) => match target {
                    TypedAssignTarget::Ident(name) => Ok(
                        out.push(indent + name@ + " = "@ + v + ";"@),
                    ),
                    TypedAssignTarget::Index { base, index, .. } => match self.expr(*index) {
                        Err(x) => Err(x),
                        Ok(i) => Ok(
                            out.push(indent + base@ + "["@ + i + "] = "@ + v + ";"@),
                        ),
                    },
                    other => Err(
                        Fail::UnsupportedKernelBody(
                            "unsupported lvalue target in kernel: "@ + other.debug(),
                        ),
                    ),
                },
            },
            TypedStmt::Expr(expr) => if is_barrier(expr) {
                Ok(
                    out.push(
                        indent + "threadgroup_barrier(mem_flags::mem_threadgroup);"@,
                    ),
                )
            } else {
                match self.expr(expr) {
                    Err(x) => Err(x),
                    Ok(v) => Ok(out.push(indent + v + ";"@)),
                }
            },
            TypedStmt::If { condition, then_body, else_body } => match self.expr(condition) {
                Err(x) => Err(x),
                Ok(c) => match self.body(
                    then_body@,
                    0,
                    indent + "    "@,
                    out.push(indent + "if ("@ + c + ") {"@),
                ) {
                    Err(x) => Err(x),
                    Ok(o) => match else_body {
                        None => Ok(o.push(indent + "}"@)),
                        Some(b) => match self.body(
                            b@,
                            0,
                            indent + "    "@,
                            o.push(indent + "} else {"@),
                        ) {
                            Err(x) => Err(x),
                            Ok(o2) => Ok(o2.push(indent + "}"@)),
                        },
                    },
                },
            },
            TypedStmt::For { var, start, end, body } => match self.expr(start) {
                Err(x) => Err(x),
                Ok(from) => match self.expr(end) {
                    Err(x) => Err(x),
                    Ok(to) => match start.ty.msl() {
                        Err(x) => Err(x),
                        Ok(ty) => match self.body(
                            body@,
                            0,
                            indent + "    "@,
                            out.push(
                                indent + "for("@ + ty + " "@ + var@ + " = "@ + from + "; "@
                                    + var@ + " < "@ + to + "; "@ + var@ + "++) {"@,
                            ),
                        ) {
                            Err(x) => Err(x),
                            Ok(o) => Ok(o.push(indent + "}"@)),
                        },
                    },
                },
            },
            TypedStmt::While { condition, body } => match self.expr(condition) {
                Err(x) => Err(x),
                Ok(c) => match self.body(
                    body@,
                    0,
                    indent + "    "@,
                    out.push(indent + "while ("@ + c + ") {"@),
                ) {
                    Err(x) => Err(x),
                    Ok(o) => Ok(o.push(indent + "}"@)),
                },
            },
            TypedStmt::Return { .. } => Ok(out.push(indent + "return;"@)),
            other => Err(
                Fail::UnsupportedKernelBody(
                    "statement not valid in explicit kernel body: "@ + other.variant_debug(),
                ),
            ),
        }
    }

    /// Statements from position `i` on.
    pub open spec fn body(
        self,
        body: Seq<TypedStmt>,
        i: nat,
        indent: Seq<char>,
        out: Seq<Seq<char>>,
    ) -> Result<Seq<Seq<char>>, Fail>
        decreases body, body.len() - i,
    {
        if i >= body.len() {
            Ok(out)
        } else {
            match self.stmt(body[i as int], indent, out) {
                Err(x) => Err(x),
                Ok(o) => self.body(body, i + 1, indent, o),
            }
        }
    }
}

/// Whether an expression is a call of the barrier.
pub open spec fn is_barrier(e: TypedExpr) -> bool {
    match e.kind {
        TypedExprKind::Call { callee, .. } => callee@ == "barrier"@,
        _ => false,
    }
}

fn extract_tensor_name(e: &TypedExpr) -> (r: Result<String, CodegenError>)
    ensures
        error::produces(r, tensor_name(*e)),
{
    match &e.kind {
        TypedExprKind::Ident(name) => Ok(name.clone()),
        other => Err(
            bad_body_at(
                "shape/stride/ndim access requires a simple tensor parameter name, got ",
                other.variant_debug_text().as_str(),
            ),
        ),
    }
}

fn is_barrier_call(e: &TypedExpr) -> (r: bool)
    ensures
        r == is_barrier(*e),
{
    match &e.kind {
        TypedExprKind::Call { callee, .. } => same_text(callee.as_str(), "barrier"),
        _ => false,
    }
}

/// Whether a list of texts was produced as a model says.
pub open spec fn lists(r: Result<Vec<String>, CodegenError>, goal: Result<Seq<Seq<char>>, Fail>) -> bool {
    match r {
        Ok(v) => goal == Ok::<Seq<Seq<char>>, Fail>(text::texts(v@)),
        Err(e) => goal == Err::<Seq<Seq<char>>, Fail>(e@),
    }
}

impl KernelCtx {
    #[verifier::rlimit(40)]
    #[verifier::spinoff_prover]
    fn lower_expr_kernel(&self, e: &TypedExpr) -> (r: Result<String, CodegenError>)
        ensures
            error::produces(r, self@.expr(*e)),
        decreases e, 2nat,
    {
        match &e.kind {
            TypedExprKind::Ident(name) => {
                if has_text(&self.tensors, name.as_str()) || same_text(name.as_str(), "out") {
                    Ok(name.clone())
                } else if has_text(&self.scalars, name.as_str()) {
                    Ok("u.".to_string().concat(name.as_str()))
                } else {
                    Ok(name.clone())
                }
            },
            TypedExprKind::Lit(lit) => lower_lit(lit),
            TypedExprKind::BinOp { op, lhs, rhs } => {
                let l = match self.lower_expr_kernel(lhs) {
                    Ok(s) => s,
                    Err(x) => {
                        return Err(x);
                    },
                };
                let r = match self.lower_expr_kernel(rhs) {
                    Ok(s) => s,
                    Err(x) => {
                        return Err(x);
                    },
                };
                if *op == BinOp::Pow {
                    return Ok(
                        "pow(".to_string().concat(l.as_str()).concat(", ").concat(
                            r.as_str(),
                        ).concat(")"),
                    );
                }
                let o = match binop_to_msl_infix(*op) {
                    Ok(s) => s,
                    Err(x) => {
                        return Err(x);
                    },
                };
                Ok(
                    "(".to_string().concat(l.as_str()).concat(" ").concat(o).concat(" ").concat(
                        r.as_str(),
                    ).concat(")"),
                )
            },
            TypedExprKind::Unary { op, operand } => {
                let v = match self.lower_expr_kernel(operand) {
                    Ok(s) => s,
                    Err(x) => {
                        return Err(x);
                    },
                };
                match op {
                    UnaryOp::Neg => Ok("(-".to_string().concat(v.as_str()).concat(")")),
                    UnaryOp::Not => Ok("(!".to_string().concat(v.as_str()).concat(")")),
                }
            },
            TypedExprKind::Index { base, indices } => match &base.kind {
                TypedExprKind::FieldAccess { base: of, field } => {
                    if same_text(field.as_str(), "shape") || same_text(
                        field.as_str(),
                        "strides",
                    ) {
                        if indices.len() != 1 {
                            return Err(
                                bad_body("shape/strides index must be single-dimensional"),
                            );
                        }
                        let t = match extract_tensor_name(of) {
                            Ok(s) => s,
                            Err(x) => {
                                return Err(x);
                            },
                        };
                        let i = match self.lower_expr_kernel(&indices[0]) {
                            Ok(s) => s,
                            Err(x) => {
                                return Err(x);
                            },
                        };
                        Ok(
                            "(int)".to_string().concat(t.as_str()).concat("_meta.").concat(
                                field.as_str(),
                            ).concat("[").concat(i.as_str()).concat("]"),
                        )
                    } else {
                        self.lower_element(e)
                    }
                },
                _ => self.lower_element(e),
            },
            TypedExprKind::FieldAccess { base, field } => {
                if same_text(field.as_str(), "ndim") {
                    match extract_tensor_name(base) {
                        Ok(t) => Ok(
                            "(int)".to_string().concat(t.as_str()).concat("_meta.ndim"),
                        ),
                        Err(x) => Err(x),
                    }
                } else {
                    let msg = "field '".to_string().concat(field.as_str()).concat(
                        "' on tensor must be indexed (e.g. t.shape[i])",
                    );
                    Err(CodegenError::UnsupportedKernelBody(msg))
                }
            },
            TypedExprKind::Call { callee, args } => {
                match intrinsic_var(callee.as_str()) {
                    Some(v) => {
                        return Ok("(int)".to_string().concat(v));
                    },
                    None => {},
                }
                if same_text(callee.as_str(), "barrier") {
                    return Ok("threadgroup_barrier(mem_flags::mem_threadgroup)".to_string());
                }
                let relu = same_text(callee.as_str(), "relu");
                if relu || same_text(callee.as_str(), "sigmoid") {
                    if args.len() == 0 {
                        return Err(bad_body("missing argument"));
                    }
                    let a = match self.lower_expr_kernel(&args[0]) {
                        Ok(s) => s,
                        Err(x) => {
                            return Err(x);
                        },
                    };
                    if relu {
                        return Ok("fmax(0.0f, ".to_string().concat(a.as_str()).concat(")"));
                    }
                    return Ok(
                        "(1.0f / (1.0f + exp(-".to_string().concat(a.as_str()).concat(")))"),
                    );
                }
                let f = match math_fn_of(callee.as_str()) {
                    Some(f) => f,
                    None => {
                        return Err(
                            bad_body_at(
                                "unsupported call in explicit kernel body: ",
                                callee.as_str(),
                            ),
                        );
                    },
                };
                let parts = match self.lower_exprs(args) {
                    Ok(v) => v,
                    Err(x) => {
                        return Err(x);
                    },
                };
                let list = join(&parts, ", ");
                Ok(f.to_string().concat("(").concat(list.as_str()).concat(")"))
            },
            other => Err(
                bad_body_at(
                    "unsupported expression kind in explicit kernel: ",
                    other.variant_debug_text().as_str(),
                ),
            ),
        }
    }

    fn lower_element(&self, e: &TypedExpr) -> (r: Result<String, CodegenError>)
        ensures
            error::produces(r, self@.element(*e)),
        decreases e, 1nat,
    {
        match &e.kind {
            TypedExprKind::Index { base, indices } => {
                if indices.len() > 1 {
                    let t = match extract_tensor_name(base) {
                        Ok(s) => s,
                        Err(x) => {
                            return Err(x);
                        },
                    };
                    let parts = match self.lower_strided(t.as_str(), indices) {
                        Ok(v) => v,
                        Err(x) => {
                            return Err(x);
                        },
                    };
                    let list = join(&parts, " + ");
                    return Ok(t.concat("[").concat(list.as_str()).concat("]"));
                }
                let b = match self.lower_expr_kernel(base) {
                    Ok(s) => s,
                    Err(x) => {
                        return Err(x);
                    },
                };
                if indices.len() == 0 {
                    return Err(bad_body("missing index"));
                }
                let i = match self.lower_expr_kernel(&indices[0]) {
                    Ok(s) => s,
                    Err(x) => {
                        return Err(x);
                    },
                };
                Ok(b.concat("[").concat(i.as_str()).concat("]"))
            },
            _ => Err(bad_body("missing index")),
        }
    }

    fn lower_exprs(&self, es: &Vec<TypedExpr>) -> (r: Result<Vec<String>, CodegenError>)
        ensures
            lists(r, self@.exprs(es@, 0, Seq::empty())),
        decreases es, es.len(),
    {
        let mut out: Vec<String> = Vec::new();
        let mut i: usize = 0;
        assert(text::texts(out@) =~= Seq::<Seq<char>>::empty());
        while i < es.len()
            invariant
                i <= es.len(),
                self@.exprs(es@, 0, Seq::empty()) == self@.exprs(
                    es@,
                    i as nat,
                    text::texts(out@),
                ),
            decreases es.len() - i,
        {
            match self.lower_expr_kernel(&es[i]) {
                Ok(s) => {
                    push_text(&mut out, s);
                },
                Err(x) => {
                    return Err(x);
                },
            }
            i = i + 1;
        }
        Ok(out)
    }

    fn lower_strided(&self, tensor: &str, es: &Vec<TypedExpr>) -> (r: Result<
        Vec<String>,
        CodegenError,
    >)
        ensures
            lists(r, self@.strided(tensor@, es@, 0, Seq::empty())),
        decreases es, es.len(),
    {
        let mut out: Vec<String> = Vec::new();
        let mut i: usize = 0;
        assert(text::texts(out@) =~= Seq::<Seq<char>>::empty());
        while i < es.len()
            invariant
                i <= es.len(),
                self@.strided(tensor@, es@, 0, Seq::empty()) == self@.strided(
                    tensor@,
                    es@,
                    i as nat,
                    text::texts(out@),
                ),
            decreases es.len() - i,
        {
            match self.lower_expr_kernel(&es[i]) {
                Ok(s) => {
                    let part = "(".to_string().concat(s.as_str()).concat(") * (int)").concat(
                        tensor,
                    ).concat("_meta.strides[").concat(decimal_of(i as u64).as_str()).concat("]");
                    push_text(&mut out, part);
                },
                Err(x) => {
                    return Err(x);
                },
            }
            i = i + 1;
        }
        Ok(out)
    }

    #[verifier::rlimit(60)]
    #[verifier::spinoff_prover]
    fn lower_stmt_explicit(&self, s: &TypedStmt, indent: &str, out: &mut Vec<String>) -> (r: Result<
        (),
        CodegenError,
    >)
        ensures
            match r {
                Ok(_) => self@.stmt(*s, indent@, text::texts(old(out)@)) == Ok::<
                    Seq<Seq<char>>,
                    Fail,
                >(text::texts(final(out)@)),
                Err(e) => self@.stmt(*s, indent@, text::texts(old(out)@)) == Err::<
                    Seq<Seq<char>>,
                    Fail,
                >(e@),
            },
        decreases s, 0nat,
    {
        match s {
            TypedStmt::Let { name, expr } => {
                let ty = match resolved_ty_to_msl(&expr.ty) {
                    Ok(t) => t,
                    Err(x) => {
                        return Err(x);
                    },
                };
                let v = match self.lower_expr_kernel(expr) {
                    Ok(t) => t,
                    Err(x) => {
                        return Err(x);
                    },
                };
                let line = indent.to_string().concat(ty).concat(" ").concat(
                    name.as_str(),
                ).concat(" = ").concat(v.as_str()).concat(";");
                push_text(out, line);
            },
            TypedStmt::LetShared { name, elem_ty, size } => {
                let line = indent.to_string().concat("threadgroup ").concat(
                    dtype_to_msl(*elem_ty),
                ).concat(" ").concat(name.as_str()).concat("[").concat(
                    decimal_of(*size as u64).as_str(),
                ).concat("];");
                push_text(out, line);
            },
            TypedStmt::Assign { target, expr } => {
                let v = match self.lower_expr_kernel(expr) {
                    Ok(t) => t,
                    Err(x) => {
                        return Err(x);
                    },
                };
                match target {
                    TypedAssignTarget::Ident(name) => {
                        let line = indent.to_string().concat(name.as_str()).concat(
                            " = ",
                        ).concat(v.as_str()).concat(";");
                        push_text(out, line);
                    },
                    TypedAssignTarget::Index { base, index, .. } => {
                        let i = match self.lower_expr_kernel(index) {
                            Ok(t) => t,
                            Err(x) => {
                                return Err(x);
                            },
                        };
                        let line = indent.to_string().concat(base.as_str()).concat("[").concat(
                            i.as_str(),
                        ).concat("] = ").concat(v.as_str()).concat(";");
                        push_text(out, line);
                    },
                    other => {
                        return Err(
                            bad_body_at(
                                "unsupported lvalue target in kernel: ",
                                other.debug_text().as_str(),
                            ),
                        );
                    },
                }
            },
            TypedStmt::Expr(expr) => {
                if is_barrier_call(expr) {
                    let line = indent.to_string().concat(
                        "threadgroup_barrier(mem_flags::mem_threadgroup);",
                    );
                    push_text(out, line);
                } else {
                    let v = match self.lower_expr_kernel(expr) {
                        Ok(t) => t,
                        Err(x) => {
                            return Err(x);
                        },
                    };
                    let line = indent.to_string().concat(v.as_str()).concat(";");
                    push_text(out, line);
                }
            },
            TypedStmt::If { condition, then_body, else_body } => {
                let c = match self.lower_expr_kernel(condition) {
                    Ok(t) => t,
                    Err(x) => {
                        return Err(x);
                    },
                };
                let line = indent.to_string().concat("if (").concat(c.as_str()).concat(") {");
                push_text(out, line);
                let deeper = indent.to_string().concat("    ");
                match self.lower_kernel_body_explicit(then_body, deeper.as_str(), out) {
                    Ok(_) => {},
                    Err(x) => {
                        return Err(x);
                    },
                }
                match else_body {
                    Some(b) => {
                        push_text(out, indent.to_string().concat("} else {"));
                        match self.lower_kernel_body_explicit(b, deeper.as_str(), out) {
                            Ok(_) => {},
                            Err(x) => {
                                return Err(x);
                            },
                        }
                    },
                    None => {},
                }
                push_text(out, indent.to_string().concat("}"));
            },
            TypedStmt::For { var, start, end, body } => {
                let from = match self.lower_expr_kernel(start) {
                    Ok(t) => t,
                    Err(x) => {
                        return Err(x);
                    },
                };
                let to = match self.lower_expr_kernel(end) {
                    Ok(t) => t,
                    Err(x) => {
                        return Err(x);
                    },
                };
                let ty = match resolved_ty_to_msl(&start.ty) {
                    Ok(t) => t,
                    Err(x) => {
                        return Err(x);
                    },
                };
                let line = indent.to_string().concat("for(").concat(ty).concat(" ").concat(
                    var.as_str(),
                ).concat(" = ").concat(from.as_str()).concat("; ").concat(var.as_str()).concat(
                    " < ",
                ).concat(to.as_str()).concat("; ").concat(var.as_str()).concat("++) {");
                push_text(out, line);
                let deeper = indent.to_string().concat("    ");
                match self.lower_kernel_body_explicit(body, deeper.as_str(), out) {
                    Ok(_) => {},
                    Err(x) => {
                        return Err(x);
                    },
                }
                push_text(out, indent.to_string().concat("}"));
            },
            TypedStmt::While { condition, body } => {
                let c = match self.lower_expr_kernel(condition) {
                    Ok(t) => t,
                    Err(x) => {
                        return Err(x);
                    },
                };
                let line = indent.to_string().concat("while (").concat(c.as_str()).concat(
                    ") {",
                );
                push_text(out, line);
                let deeper = indent.to_string().concat("    ");
                match self.lower_kernel_body_explicit(body, deeper.as_str(), out) {
                    Ok(_) => {},
                    Err(x) => {
                        return Err(x);
                    },
                }
                push_text(out, indent.to_string().concat("}"));
            },
            TypedStmt::Return { .. } => {
                push_text(out, indent.to_string().concat("return;"));
            },
            other => {
                return Err(
                    bad_body_at(
                        "statement not valid in explicit kernel body: ",
                        other.variant_debug_text().as_str(),
                    ),
                );
            },
        }
        Ok(())
    }

    pub(crate) fn lower_kernel_body_explicit(
        &self,
        body: &Vec<TypedStmt>,
        indent: &str,
        out: &mut Vec<String>,
    ) -> (r: Result<(), CodegenError>)
        ensures
            match r {
                Ok(_) => self@.body(body@, 0, indent@, text::texts(old(out)@)) == Ok::<
                    Seq<Seq<char>>,
                    Fail,
                >(text::texts(final(out)@)),
                Err(e) => self@.body(body@, 0, indent@, text::texts(old(out)@)) == Err::<
                    Seq<Seq<char>>,
                    Fail,
                >(e@),
            },
        decreases body, body.len(),
    {
        let mut i: usize = 0;
        while i < body.len()
            invariant
                i <= body.len(),
                self@.body(body@, 0, indent@, text::texts(old(out)@)) == self@.body(
                    body@,
                    i as nat,
                    indent@,
                    text::texts(out@),
                ),
            decreases body.len() - i,
        {
            match self.lower_stmt_explicit(&body[i], indent, out) {
                Ok(_) => {},
                Err(x) => {
                    return Err(x);
                },
            }
            i = i + 1;
        }
        Ok(())
    }
}

} // verus!
