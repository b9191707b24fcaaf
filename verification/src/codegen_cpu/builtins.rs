//! Names with a fixed meaning: built-in functions, the library functions that
//! operators lower to, and the tags under which operations are recorded.

use crate::text::same_text;
use crate::typed::BinOp;
use vstd::prelude::*;

verus! {

pub const OPTAG_MATMUL: i32 = 0;

pub const OPTAG_ADD: i32 = 1;

pub const OPTAG_SUB: i32 = 2;

pub const OPTAG_MUL: i32 = 3;

pub const OPTAG_DIV: i32 = 4;

pub const OPTAG_SIGMOID: i32 = 5;

pub const OPTAG_RELU: i32 = 6;

pub const OPTAG_TANH: i32 = 7;

pub const OPTAG_EXP: i32 = 8;

pub const OPTAG_LOG: i32 = 9;

pub const OPTAG_SQRT: i32 = 10;

pub const OPTAG_ABS: i32 = 11;

pub const OPTAG_SUM: i32 = 12;

pub const OPTAG_TRANSPOSE: i32 = 13;

pub const OPTAG_NEG: i32 = 14;

pub const OPTAG_REDUCE_SUM_AXIS: i32 = 15;

pub const OPTAG_REDUCE_MEAN_AXIS: i32 = 16;

pub const OPTAG_REDUCE_MAX_AXIS: i32 = 17;

pub const OPTAG_REDUCE_VAR_AXIS: i32 = 18;

pub const OPTAG_RESHAPE: i32 = 19;

pub const OPTAG_SOFTMAX: i32 = 20;

pub const OPTAG_LAYERNORM: i32 = 21;

pub const OPTAG_GELU: i32 = 22;

pub const OPTAG_CROSS_ENTROPY: i32 = 23;

pub const OPTAG_EMBEDDING: i32 = 24;

impl BinOp {
    /// Tag of the operator when it is recorded.
    pub open spec fn optag(self) -> Option<i32> {
        match self {
            BinOp::Matmul => Some(OPTAG_MATMUL),
            BinOp::Add => Some(OPTAG_ADD),
            BinOp::Sub => Some(OPTAG_SUB),
            BinOp::Mul => Some(OPTAG_MUL),
            BinOp::Div => Some(OPTAG_DIV),
            _ => None,
        }
    }

    /// Library function that the operator calls on two tensors.
    pub open spec fn broadcast_fwd(self) -> Option<Seq<char>> {
        match self {
            BinOp::Add => Some("__broadcast_add_fwd"@),
            BinOp::Sub => Some("__broadcast_sub_fwd"@),
            BinOp::Mul => Some("__broadcast_mul_fwd"@),
            BinOp::Div => Some("__broadcast_div_fwd"@),
            _ => None,
        }
    }
}

/// Tag of a recorded binary operator.
pub fn binop_to_optag(op: BinOp) -> (r: Option<i32>)
    ensures
        r == op.optag(),
{
    match op {
        BinOp::Matmul => Some(OPTAG_MATMUL),
        BinOp::Add => Some(OPTAG_ADD),
        BinOp::Sub => Some(OPTAG_SUB),
        BinOp::Mul => Some(OPTAG_MUL),
        BinOp::Div => Some(OPTAG_DIV),
        _ => None,
    }
}

/// Tag of a recorded built-in function of one tensor.
pub open spec fn optag_of_unary(name: Seq<char>) -> Option<i32> {
    if name == "sigmoid"@ {
        Some(OPTAG_SIGMOID)
    } else if name == "relu"@ {
        Some(OPTAG_RELU)
    } else if name == "tanh"@ {
        Some(OPTAG_TANH)
    } else if name == "exp"@ {
        Some(OPTAG_EXP)
    } else if name == "log"@ {
        Some(OPTAG_LOG)
    } else if name == "sqrt"@ {
        Some(OPTAG_SQRT)
    } else if name == "abs"@ {
        Some(OPTAG_ABS)
    } else if name == "gelu"@ {
        Some(OPTAG_GELU)
    } else if name == "sum"@ {
        Some(OPTAG_SUM)
    } else if name == "transpose"@ {
        Some(OPTAG_TRANSPOSE)
    } else {
        None
    }
}

pub fn unary_builtin_to_optag(name: &str) -> (r: Option<i32>)
    ensures
        r == optag_of_unary(name@),
{
    if same_text(name, "sigmoid") {
        Some(OPTAG_SIGMOID)
    } else if same_text(name, "relu") {
        Some(OPTAG_RELU)
    } else if same_text(name, "tanh") {
        Some(OPTAG_TANH)
    } else if same_text(name, "exp") {
        Some(OPTAG_EXP)
    } else if same_text(name, "log") {
        Some(OPTAG_LOG)
    } else if same_text(name, "sqrt") {
        Some(OPTAG_SQRT)
    } else if same_text(name, "abs") {
        Some(OPTAG_ABS)
    } else if same_text(name, "gelu") {
        Some(OPTAG_GELU)
    } else if same_text(name, "sum") {
        Some(OPTAG_SUM)
    } else if same_text(name, "transpose") {
        Some(OPTAG_TRANSPOSE)
    } else {
        None
    }
}

/// Library function that an element-wise tensor operator calls.
pub(crate) fn broadcast_fwd_name(op: BinOp) -> (r: Option<&'static str>)
    ensures
        match r {
            Some(s) => op.broadcast_fwd() == Some(s@),
            None => op.broadcast_fwd() is None,
        },
{
    match op {
        BinOp::Add => Some("__broadcast_add_fwd"),
        BinOp::Sub => Some("__broadcast_sub_fwd"),
        BinOp::Mul => Some("__broadcast_mul_fwd"),
        BinOp::Div => Some("__broadcast_div_fwd"),
        _ => None,
    }
}

/// Functions that the language provides.
#[derive(Clone, Copy, Debug, PartialEq, Eq, Structural)]
pub enum Builtin {
    Print,
    Println,
    Zeros,
    Ones,
    Randn,
    Reshape,
    Transpose,
    Permute,
    Sum,
    Mean,
    Max,
    Variance,
    Softmax,
    Layernorm,
    Gelu,
    Embedding,
    CrossEntropy,
    CausalMask,
    Variable,
    Backward,
    ZeroGrad,
    TensorPrint,
    ReadFile,
    StrLen,
    Len,
    StrCharAt,
    StrFromChar,
    RandUniform,
    RecordDiff,
    RandInt,
    BufferI32,
    Freeze,
}

/// The built-in function that a name means.
pub open spec fn builtin_of(name: Seq<char>) -> Option<Builtin> {
    if name == "print"@ {
        Some(Builtin::Print)
    } else if name == "println"@ {
        Some(Builtin::Println)
    } else if name == "zeros"@ {
        Some(Builtin::Zeros)
    } else if name == "ones"@ {
        Some(Builtin::Ones)
    } else if name == "randn"@ {
        Some(Builtin::Randn)
    } else if name == "reshape"@ {
        Some(Builtin::Reshape)
    } else if name == "transpose"@ {
        Some(Builtin::Transpose)
    } else if name == "permute"@ {
        Some(Builtin::Permute)
    } else if name == "sum"@ {
        Some(Builtin::Sum)
    } else if name == "mean"@ {
        Some(Builtin::Mean)
    } else if name == "max"@ {
        Some(Builtin::Max)
    } else if name == "var"@ {
        Some(Builtin::Variance)
    } else if name == "softmax"@ {
        Some(Builtin::Softmax)
    } else if name == "layernorm"@ {
        Some(Builtin::Layernorm)
    } else if name == "gelu"@ {
        Some(Builtin::Gelu)
    } else if name == "embedding"@ {
        Some(Builtin::Embedding)
    } else if name == "cross_entropy"@ {
        Some(Builtin::CrossEntropy)
    } else if name == "causal_mask"@ {
        Some(Builtin::CausalMask)
    } else if name == "variable"@ {
        Some(Builtin::Variable)
    } else if name == "backward"@ {
        Some(Builtin::Backward)
    } else if name == "zero_grad"@ {
        Some(Builtin::ZeroGrad)
    } else if name == "tensor_print"@ {
        Some(Builtin::TensorPrint)
    } else if name == "read_file"@ {
        Some(Builtin::ReadFile)
    } else if name == "str_len"@ {
        Some(Builtin::StrLen)
    } else if name == "len"@ {
        Some(Builtin::Len)
    } else if name == "str_char_at"@ {
        Some(Builtin::StrCharAt)
    } else if name == "str_from_char"@ {
        Some(Builtin::StrFromChar)
    } else if name == "rand_uniform"@ {
        Some(Builtin::RandUniform)
    } else if name == "record_diff"@ {
        Some(Builtin::RecordDiff)
    } else if name == "rand_int"@ {
        Some(Builtin::RandInt)
    } else if name == "buffer_i32"@ {
        Some(Builtin::BufferI32)
    } else if name == "freeze"@ {
        Some(Builtin::Freeze)
    } else {
        None
    }
}

pub(crate) fn builtin_named(name: &str) -> (r: Option<Builtin>)
    ensures
        r == builtin_of(name@),
{
    if same_text(name, "print") {
        Some(Builtin::Print)
    } else if same_text(name, "println") {
        Some(Builtin::Println)
    } else if same_text(name, "zeros") {
        Some(Builtin::Zeros)
    } else if same_text(name, "ones") {
        Some(Builtin::Ones)
    } else if same_text(name, "randn") {
        Some(Builtin::Randn)
    } else if same_text(name, "reshape") {
        Some(Builtin::Reshape)
    } else if same_text(name, "transpose") {
        Some(Builtin::Transpose)
    } else if same_text(name, "permute") {
        Some(Builtin::Permute)
    } else if same_text(name, "sum") {
        Some(Builtin::Sum)
    } else if same_text(name, "mean") {
        Some(Builtin::Mean)
    } else if same_text(name, "max") {
        Some(Builtin::Max)
    } else if same_text(name, "var") {
        Some(Builtin::Variance)
    } else if same_text(name, "softmax") {
        Some(Builtin::Softmax)
    } else if same_text(name, "layernorm") {
        Some(Builtin::Layernorm)
    } else if same_text(name, "gelu") {
        Some(Builtin::Gelu)
    } else if same_text(name, "embedding") {
        Some(Builtin::Embedding)
    } else if same_text(name, "cross_entropy") {
        Some(Builtin::CrossEntropy)
    } else if same_text(name, "causal_mask") {
        Some(Builtin::CausalMask)
    } else if same_text(name, "variable") {
        Some(Builtin::Variable)
    } else if same_text(name, "backward") {
        Some(Builtin::Backward)
    } else if same_text(name, "zero_grad") {
        Some(Builtin::ZeroGrad)
    } else if same_text(name, "tensor_print") {
        Some(Builtin::TensorPrint)
    } else if same_text(name, "read_file") {
        Some(Builtin::ReadFile)
    } else if same_text(name, "str_len") {
        Some(Builtin::StrLen)
    } else if same_text(name, "len") {
        Some(Builtin::Len)
    } else if same_text(name, "str_char_at") {
        Some(Builtin::StrCharAt)
    } else if same_text(name, "str_from_char") {
        Some(Builtin::StrFromChar)
    } else if same_text(name, "rand_uniform") {
        Some(Builtin::RandUniform)
    } else if same_text(name, "record_diff") {
        Some(Builtin::RecordDiff)
    } else if same_text(name, "rand_int") {
        Some(Builtin::RandInt)
    } else if same_text(name, "buffer_i32") {
        Some(Builtin::BufferI32)
    } else if same_text(name, "freeze") {
        Some(Builtin::Freeze)
    } else {
        None
    }
}

impl Builtin {
    /// Library function and record tag of a reduction along an axis.
    pub open spec fn axis_fwd(self) -> (Seq<char>, i32) {
        match self {
            Builtin::Sum => ("__reduce_sum_fwd"@, OPTAG_REDUCE_SUM_AXIS),
            Builtin::Mean => ("__reduce_mean_fwd"@, OPTAG_REDUCE_MEAN_AXIS),
            Builtin::Max => ("__reduce_max_fwd"@, OPTAG_REDUCE_MAX_AXIS),
            _ => ("__reduce_var_fwd"@, OPTAG_REDUCE_VAR_AXIS),
        }
    }
}

/// Library function and record tag of a reduction along an axis.
pub(crate) fn axis_fwd_name(b: Builtin) -> (r: (&'static str, i32))
    ensures
        (r.0@, r.1) == b.axis_fwd(),
{
    match b {
        Builtin::Sum => ("__reduce_sum_fwd", OPTAG_REDUCE_SUM_AXIS),
        Builtin::Mean => ("__reduce_mean_fwd", OPTAG_REDUCE_MEAN_AXIS),
        Builtin::Max => ("__reduce_max_fwd", OPTAG_REDUCE_MAX_AXIS),
        _ => ("__reduce_var_fwd", OPTAG_REDUCE_VAR_AXIS),
    }
}

} // verus!
