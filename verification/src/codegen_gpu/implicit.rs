//! Kernels that are mapped over every element: `let`s and a final `return`.

use crate::codegen_gpu::error;
use crate::codegen_gpu::error::{bad_body, bad_body_at, CodegenError, Fail};
use crate::codegen_gpu::msl::{
    binop_to_msl_infix, dtype_to_msl, lower_lit, resolved_ty_to_msl,
};
use crate::text;
use crate::text::{decimal_of, has_text, join, push_text, same_text};
use crate::typed::{
    TypedExpr, TypedExprKind, TypedKernel, TypedParam, TypedStmt, UnaryOp,
};
use vstd::prelude::*;

verus! {

/// Whether a parameter has a name.
pub open spec fn is_param(params: Seq<TypedParam>, name: Seq<char>) -> bool {
    exists|i: int| 0 <= i < params.len() && (#[trigger] params[i]).name@ == name
}

impl TypedExpr {
    /// An expression of a mapped kernel: parameters stand for their element at
    /// the thread's position.
    pub open spec fn mapped(self, params: Seq<TypedParam>, locals: Seq<Seq<char>>) -> Result<
        Seq<char>,
        Fail,
    >
        decreases self,
    {
        match self.kind {
            TypedExprKind::Ident(name) => if is_param(params, name@) {
                Ok(name@ + "[tid]"@)
            } else if locals.contains(name@) {
                Ok(name@)
            } else {
                Err(Fail::UnsupportedKernelBody("unknown identifier in kernel: "@ + name@))
            },
            TypedExprKind::Lit(lit) => lit.msl(),
            TypedExprKind::BinOp { op, lhs, rhs } => match lhs.mapped(params, locals) {
                Err(x) => Err(x),
                Ok(l) => match rhs.mapped(params, locals) {
                    Err(x) => Err(x),
                    Ok(r) => match op.msl() {
                        Err(x) => Err(x),
                        Ok(o) => Ok("("@ + l + " "@ + o + " "@ + r + ")"@),
                    },
                },
            },
            TypedExprKind::Unary { op, operand } => match operand.mapped(params, locals) {
                Err(x) => Err(x),
                Ok(v) => match op {
                    UnaryOp::Neg => Ok("(-"@ + v + ")"@),
                    UnaryOp::Not => Err(
                        Fail::UnsupportedKernelBody(
                            "logical not not supported in kernel bodies"@,
                        ),
                    ),
                },
            },
            _ => Err(
                Fail::UnsupportedKernelBody(
                    "unsupported expression kind in implicit-map kernel body"@,
                ),
            ),
        }
    }
}

/// The lines of a mapped kernel, from statement `i` on.
pub open spec fn mapped_lines(
    params: Seq<TypedParam>,
    body: Seq<TypedStmt>,
    i: nat,
    locals: Seq<Seq<char>>,
    lines: Seq<Seq<char>>,
) -> Result<Seq<Seq<char>>, Fail>
    decreases body.len() - i,
{
    if i >= body.len() {
        Ok(lines)
    } else {
        let last = i == body.len() - 1;
        match body[i as int] {
            TypedStmt::Let { name, expr } => if last {
                Err(
                    Fail::UnsupportedKernelBody("kernel body must end with a return statement"@),
                )
            } else {
                match expr.ty.msl() {
                    Err(x) => Err(x),
                    Ok(ty) => match expr.mapped(params, locals) {
                        Err(x) => Err(x),
                        Ok(v) => mapped_lines(
                            params,
                            body,
                            i + 1,
                            locals.push(name@),
                            lines.push(ty + " "@ + name@ + " = "@ + v + ";"@),
                        ),
                    },
                }
            },
            TypedStmt::Return { expr } => if !last {
                Err(
                    Fail::UnsupportedKernelBody(
                        "return must be the last statement in kernel body"@,
                    ),
                )
            } else {
                match expr.mapped(params, locals) {
                    Err(x) => Err(x),
                    Ok(v) => mapped_lines(
                        params,
                        body,
                        i + 1,
                        locals,
                        lines.push("out[tid] = "@ + v + ";"@),
                    ),
                }
            },
            _ => Err(
                Fail::UnsupportedKernelBody(
                    "only let bindings and a final return are allowed in implicit-map kernel bodies"@,
                ),
            ),
        }
    }
}

/// The body of a mapped kernel.
pub open spec fn mapped_body(params: Seq<TypedParam>, body: Seq<TypedStmt>) -> Result<
    Seq<char>,
    Fail,
> {
    if body.len() == 0 {
        Err(Fail::UnsupportedKernelBody("kernel body must not be empty"@))
    } else {
        match mapped_lines(params, body, 0, Seq::empty(), Seq::empty()) {
            Err(x) => Err(x),
            Ok(lines) => Ok(text::joined(lines, "\n    "@, lines.len())),
        }
    }
}

/// Declarations of the parameters of a mapped kernel, from `i` on.
pub open spec fn mapped_params(params: Seq<TypedParam>, i: nat, done: Seq<Seq<char>>) -> Result<
    Seq<Seq<char>>,
    Fail,
>
    decreases params.len() - i,
{
    if i >= params.len() {
        Ok(done)
    } else {
        match params[i as int].ty.dtype() {
            None => Err(Fail::NonTensorParamType(params[i as int].ty.text())),
            Some(d) => mapped_params(
                params,
                i + 1,
                done.push(
                    "device "@ + d.msl() + "* "@ + params[i as int].name@ + " [[buffer("@
                        + text::decimal(i) + ")]]"@,
                ),
            ),
        }
    }
}

/// The source of a mapped kernel.
pub open spec fn mapped_kernel(k: TypedKernel, id: u64) -> Result<Seq<char>, Fail> {
    match k.return_ty.dtype() {
        None => Err(Fail::NonTensorReturnType(k.return_ty.text())),
        Some(d) => match mapped_params(k.params@, 0, Seq::empty()) {
            Err(x) => Err(x),
            Ok(ps) => match mapped_body(k.params@, k.body@) {
                Err(x) => Err(x),
                Ok(b) => {
                    let all = ps.push(
                        "device "@ + d.msl() + "* out [[buffer("@ + text::decimal(
                            k.params@.len(),
                        ) + ")]]"@,
                    ).push("uint tid [[thread_position_in_grid]]"@);
                    Ok(
                        "#include <metal_stdlib>\nusing namespace metal;\n\nkernel void malus_kernel_"@
                            + text::decimal(id as nat) + "(\n    "@ + text::joined(
                            all,
                            ",\n    "@,
                            all.len(),
                        ) + "\n) {\n    "@ + b + "\n}\n"@,
                    )
                },
            },
        },
    }
}

pub(crate) fn has_param(params: &Vec<TypedParam>, name: &str) -> (r: bool)
    ensures
        r == is_param(params@, name@),
{
    let mut i: usize = 0;
    while i < params.len()
        invariant
            i <= params.len(),
            forall|j: int| 0 <= j < i ==> (#[trigger] params@[j]).name@ != name@,
        decreases params.len() - i,
    {
        if same_text(params[i].name.as_str(), name) {
            return true;
        }
        i = i + 1;
    }
    false
}

fn lower_expr_implicit(
    expr: &TypedExpr,
    params: &Vec<TypedParam>,
    locals: &Vec<String>,
) -> (r: Result<String, CodegenError>)
    ensures
        error::produces(r, expr.mapped(params@, text::texts(locals@))),
    decreases expr,
{
    match &expr.kind {
        TypedExprKind::Ident(name) => {
            if has_param(params, name.as_str()) {
                Ok(name.clone().concat("[tid]"))
            } else if has_text(locals, name.as_str()) {
                Ok(name.clone())
            } else {
                Err(bad_body_at("unknown identifier in kernel: ", name.as_str()))
            }
        },
        TypedExprKind::Lit(lit) => lower_lit(lit),
        TypedExprKind::BinOp { op, lhs, rhs } => {
            let l = match lower_expr_implicit(lhs, params, locals) {
                Ok(s) => s,
                Err(x) => {
                    return Err(x);
                },
            };
            let r = match lower_expr_implicit(rhs, params, locals) {
                Ok(s) => s,
                Err(x) => {
                    return Err(x);
                },
            };
            let o = match binop_to_msl_infix(*op) {
                Ok(s) => s,
                Err(x) => {
                    return Err(x);
                },
            };
            Ok(
                "(".to_string().concat(l.as_str()).concat(" ").concat(o).concat(" ").concat(
                    r.as_str(),
                ).concat(")"),
            )
        },
        TypedExprKind::Unary { op, operand } => {
            let v = match lower_expr_implicit(operand, params, locals) {
                Ok(s) => s,
                Err(x) => {
                    return Err(x);
                },
            };
            match op {
                UnaryOp::Neg => Ok("(-".to_string().concat(v.as_str()).concat(")")),
                UnaryOp::Not => Err(bad_body("logical not not supported in kernel bodies")),
            }
        },
        _ => Err(bad_body("unsupported expression kind in implicit-map kernel body")),
    }
}

fn lower_kernel_body_implicit(body: &Vec<TypedStmt>, params: &Vec<TypedParam>) -> (r: Result<
    String,
    CodegenError,
>)
    ensures
        error::produces(r, mapped_body(params@, body@)),
{
    if body.len() == 0 {
        return Err(bad_body("kernel body must not be empty"));
    }
    let mut locals: Vec<String> = Vec::new();
    let mut lines: Vec<String> = Vec::new();
    let mut i: usize = 0;
    proof {
        assert(text::texts(locals@) =~= Seq::<Seq<char>>::empty());
        assert(text::texts(lines@) =~= Seq::<Seq<char>>::empty());
    }
    while i < body.len()
        invariant
            i <= body.len(),
            body.len() > 0,
            mapped_lines(params@, body@, 0, Seq::empty(), Seq::empty()) == mapped_lines(
                params@,
                body@,
                i as nat,
                text::texts(locals@),
                text::texts(lines@),
            ),
        decreases body.len() - i,
    {
        let last = i == body.len() - 1;
        match &body[i] {
            TypedStmt::Let { name, expr } => {
                if last {
                    return Err(bad_body("kernel body must end with a return statement"));
                }
                let ty = match resolved_ty_to_msl(&expr.ty) {
                    Ok(s) => s,
                    Err(x) => {
                        return Err(x);
                    },
                };
                let v = match lower_expr_implicit(expr, params, &locals) {
                    Ok(s) => s,
                    Err(x) => {
                        return Err(x);
                    },
                };
                let line = ty.to_string().concat(" ").concat(name.as_str()).concat(" = ").concat(
                    v.as_str(),
                ).concat(";");
                push_text(&mut lines, line);
                push_text(&mut locals, name.clone());
            },
            TypedStmt::Return { expr } => {
                if !last {
                    return Err(bad_body("return must be the last statement in kernel body"));
                }
                let v = match lower_expr_implicit(expr, params, &locals) {
                    Ok(s) => s,
                    Err(x) => {
                        return Err(x);
                    },
                };
                let line = "out[tid] = ".to_string().concat(v.as_str()).concat(";");
                push_text(&mut lines, line);
            },
            _ => {
                return Err(
                    bad_body(
                        "only let bindings and a final return are allowed in implicit-map kernel bodies",
                    ),
                );
            },
        }
        i = i + 1;
    }
    Ok(join(&lines, "\n    "))
}

/// The source of a mapped kernel.
pub fn lower_kernel_implicit(kernel: &TypedKernel, kernel_id: u64) -> (r: Result<
    String,
    CodegenError,
>)
    ensures
        error::produces(r, mapped_kernel(*kernel, kernel_id)),
{
    let dtype = match kernel.return_ty.tensor_dtype() {
        Some(d) => d,
        None => {
            return Err(CodegenError::NonTensorReturnType(kernel.return_ty.render()));
        },
    };
    let params = &kernel.params;
    let mut decls: Vec<String> = Vec::new();
    let mut i: usize = 0;
    proof {
        assert(text::texts(decls@) =~= Seq::<Seq<char>>::empty());
    }
    while i < params.len()
        invariant
            i <= params.len(),
            params@ == kernel.params@,
            kernel.return_ty.dtype() is Some,
            mapped_params(params@, 0, Seq::empty()) == mapped_params(
                params@,
                i as nat,
                text::texts(decls@),
            ),
        decreases params.len() - i,
    {
        let d = match params[i].ty.tensor_dtype() {
            Some(d) => d,
            None => {
                return Err(CodegenError::NonTensorParamType(params[i].ty.render()));
            },
        };
        let line = "device ".to_string().concat(dtype_to_msl(d)).concat("* ").concat(
            params[i].name.as_str(),
        ).concat(" [[buffer(").concat(decimal_of(i as u64).as_str()).concat(")]]");
        push_text(&mut decls, line);
        i = i + 1;
    }
    let body = match lower_kernel_body_implicit(&kernel.body, params) {
        Ok(s) => s,
        Err(x) => {
            return Err(x);
        },
    };
    let out = "device ".to_string().concat(dtype_to_msl(dtype)).concat("* out [[buffer(").concat(
        decimal_of(params.len() as u64).as_str(),
    ).concat(")]]");
    push_text(&mut decls, out);
    push_text(&mut decls, "uint tid [[thread_position_in_grid]]".to_string());
    let list = join(&decls, ",\n    ");
    let mut s =
        "#include <metal_stdlib>\nusing namespace metal;\n\nkernel void malus_kernel_".to_string();
    s.append(decimal_of(kernel_id).as_str());
    s.append("(\n    ");
    s.append(list.as_str());
    s.append("\n) {\n    ");
    s.append(body.as_str());
    s.append("\n}\n");
    Ok(s)
}

} // verus!
