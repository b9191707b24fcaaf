//! Spelling of types, operators and literals in kernel sources.

use crate::codegen_gpu::error;
use crate::codegen_gpu::error::{bad_body, bad_body_at, CodegenError, Fail};
use crate::text;
use crate::text::signed_decimal_of;
use crate::typed::{BinOp, Lit, ResolvedTy, ScalarTy};
use vstd::prelude::*;

verus! {

impl ScalarTy {
    /// Spelling of an element type.
    pub open spec fn msl(self) -> Seq<char> {
        match self {
            ScalarTy::F32 => "float"@,
            ScalarTy::F16 => "half"@,
            ScalarTy::Bf16 => "bfloat"@,
            ScalarTy::I8 => "char"@,
            ScalarTy::I16 => "short"@,
            ScalarTy::I32 => "int"@,
            ScalarTy::I64 => "long"@,
            ScalarTy::U8 => "uchar"@,
            ScalarTy::U16 => "ushort"@,
            ScalarTy::U32 => "uint"@,
            ScalarTy::U64 => "ulong"@,
        }
    }
}

/// Spelling of an element type.
pub fn dtype_to_msl(dtype: ScalarTy) -> (r: &'static str)
    ensures
        r@ == dtype.msl(),
{
    match dtype {
        ScalarTy::F32 => "float",
        ScalarTy::F16 => "half",
        ScalarTy::Bf16 => "bfloat",
        ScalarTy::I8 => "char",
        ScalarTy::I16 => "short",
        ScalarTy::I32 => "int",
        ScalarTy::I64 => "long",
        ScalarTy::U8 => "uchar",
        ScalarTy::U16 => "ushort",
        ScalarTy::U32 => "uint",
        ScalarTy::U64 => "ulong",
    }
}

impl ResolvedTy {
    /// Spelling of the type of a kernel local.
    pub open spec fn msl(self) -> Result<Seq<char>, Fail> {
        match self {
            ResolvedTy::Scalar(s) => Ok(s.msl()),
            ResolvedTy::Unit => Ok("void"@),
            _ => Err(
                Fail::UnsupportedKernelBody(
                    "expected scalar type for kernel local, got: "@ + self.text(),
                ),
            ),
        }
    }
}

/// Spelling of the type of a kernel local.
pub fn resolved_ty_to_msl(ty: &ResolvedTy) -> (r: Result<&'static str, CodegenError>)
    ensures
        match r {
            Ok(s) => ty.msl() == Ok::<Seq<char>, Fail>(s@),
            Err(e) => ty.msl() == Err::<Seq<char>, Fail>(e@),
        },
{
    match ty {
        ResolvedTy::Scalar(s) => Ok(dtype_to_msl(*s)),
        ResolvedTy::Unit => Ok("void"),
        _ => {
            let t = ty.render();
            Err(bad_body_at("expected scalar type for kernel local, got: ", t.as_str()))
        },
    }
}

impl BinOp {
    /// Spelling of an infix operator.
    pub open spec fn msl(self) -> Result<Seq<char>, Fail> {
        match self {
            BinOp::Add => Ok("+"@),
            BinOp::Sub => Ok("-"@),
            BinOp::Mul => Ok("*"@),
            BinOp::Div => Ok("/"@),
            BinOp::Eq => Ok("=="@),
            BinOp::NotEq => Ok("!="@),
            BinOp::Lt => Ok("<"@),
            BinOp::LtEq => Ok("<="@),
            BinOp::Gt => Ok(">"@),
            BinOp::GtEq => Ok(">="@),
            BinOp::And => Ok("&&"@),
            BinOp::Or => Ok("||"@),
            BinOp::Matmul => Err(Fail::UnsupportedKernelBody("matmul is not element-wise"@)),
            BinOp::Pow => Err(
                Fail::UnsupportedKernelBody("Pow must be handled before binop_to_msl_infix"@),
            ),
        }
    }
}

/// Spelling of an infix operator.
pub fn binop_to_msl_infix(op: BinOp) -> (r: Result<&'static str, CodegenError>)
    ensures
        match r {
            Ok(s) => op.msl() == Ok::<Seq<char>, Fail>(s@),
            Err(e) => op.msl() == Err::<Seq<char>, Fail>(e@),
        },
{
    match op {
        BinOp::Add => Ok("+"),
        BinOp::Sub => Ok("-"),
        BinOp::Mul => Ok("*"),
        BinOp::Div => Ok("/"),
        BinOp::Eq => Ok("=="),
        BinOp::NotEq => Ok("!="),
        BinOp::Lt => Ok("<"),
        BinOp::LtEq => Ok("<="),
        BinOp::Gt => Ok(">"),
        BinOp::GtEq => Ok(">="),
        BinOp::And => Ok("&&"),
        BinOp::Or => Ok("||"),
        BinOp::Matmul => Err(bad_body("matmul is not element-wise")),
        BinOp::Pow => Err(bad_body("Pow must be handled before binop_to_msl_infix")),
    }
}

impl Lit {
    /// Spelling of a literal.
    pub open spec fn msl(self) -> Result<Seq<char>, Fail> {
        match self {
            Lit::Float(f) => Ok(f.text@ + "f"@),
            Lit::Int(n) => Ok(text::signed_decimal(n as int)),
            Lit::Bool(b) => Ok(
                if b {
                    "true"@
                } else {
                    "false"@
                },
            ),
            Lit::Str(_) => Err(
                Fail::UnsupportedKernelBody("string literals not supported in kernel bodies"@),
            ),
        }
    }
}

/// Spelling of a literal.
pub fn lower_lit(lit: &Lit) -> (r: Result<String, CodegenError>)
    ensures
        error::produces(r, lit.msl()),
{
    match lit {
        Lit::Float(f) => Ok(f.text.clone().concat("f")),
        Lit::Int(n) => Ok(signed_decimal_of(*n)),
        Lit::Bool(b) => Ok(
            if *b {
                "true".to_string()
            } else {
                "false".to_string()
            },
        ),
        Lit::Str(_) => Err(bad_body("string literals not supported in kernel bodies")),
    }
}

} // verus!
