//! Numbering shared between generated code and the runtime: element types,
//! recorded operations and backward functions.

use crate::codegen_cpu::builtins;
use crate::typed::{BinOp, ScalarTy};
use vstd::prelude::*;

verus! {

/// Element type of a tensor buffer.
#[derive(Clone, Copy, Debug, PartialEq, Eq, Structural)]
pub enum Dtype {
    F32,
    F16,
    Bf16,
    I8,
    I16,
    I32,
    I64,
    U8,
    U16,
    U32,
    U64,
}

/// An operation that can be recorded for the backward pass.
#[derive(Clone, Copy, Debug, PartialEq, Eq, Structural)]
pub enum OpTag {
    Matmul,
    Add,
    Sub,
    Mul,
    Div,
    Sigmoid,
    Relu,
    Tanh,
    Exp,
    Log,
    Sqrt,
    Abs,
    Sum,
    Transpose,
    Neg,
    ReduceSumAxis,
    ReduceMeanAxis,
    ReduceMaxAxis,
    ReduceVarAxis,
    Reshape,
    Softmax,
    Layernorm,
    Gelu,
    CrossEntropy,
    Embedding,
}

/// A slot of the table of backward functions.
#[derive(Clone, Copy, Debug, PartialEq, Eq, Structural)]
pub enum BwdSlot {
    AddBwdA,
    AddBwdB,
    SubBwdA,
    SubBwdB,
    MulBwdA,
    MulBwdB,
    DivBwdA,
    DivBwdB,
    SigmoidBwd,
    ReluBwd,
    TanhBwd,
    ExpBwd,
    LogBwd,
    SqrtBwd,
    AbsBwd,
    NegBwd,
    SumBwd,
    PermuteNdFwd,
    ReduceSumAxisBwd,
    ReduceMeanAxisBwd,
    ReduceMaxAxisBwd,
    ReduceVarAxisBwd,
    SoftmaxBwd,
    LayernormBwd,
    GeluBwd,
    CrossEntropyBwd,
    EmbeddingBwd,
    MatmulBwdA,
    MatmulBwdB,
    GradAcc,
}

pub const N_BWD_SLOTS: usize = 30;

impl Dtype {
    /// Number of the element type, counted in declaration order.
    pub open spec fn tag(self) -> int {
        match self {
            Dtype::F32 => 0,
            Dtype::F16 => 1,
            Dtype::Bf16 => 2,
            Dtype::I8 => 3,
            Dtype::I16 => 4,
            Dtype::I32 => 5,
            Dtype::I64 => 6,
            Dtype::U8 => 7,
            Dtype::U16 => 8,
            Dtype::U32 => 9,
            Dtype::U64 => 10,
        }
    }

    pub fn to_tag(&self) -> (r: i32)
        ensures
            r == self.tag(),
    {
        match self {
            Dtype::F32 => 0,
            Dtype::F16 => 1,
            Dtype::Bf16 => 2,
            Dtype::I8 => 3,
            Dtype::I16 => 4,
            Dtype::I32 => 5,
            Dtype::I64 => 6,
            Dtype::U8 => 7,
            Dtype::U16 => 8,
            Dtype::U32 => 9,
            Dtype::U64 => 10,
        }
    }

    /// The element type with a number.
    pub fn from_tag(tag: i32) -> (r: Self)
        requires
            0 <= tag < 11,
        ensures
            r.tag() == tag,
    {
        match tag {
            0 => Dtype::F32,
            1 => Dtype::F16,
            2 => Dtype::Bf16,
            3 => Dtype::I8,
            4 => Dtype::I16,
            5 => Dtype::I32,
            6 => Dtype::I64,
            7 => Dtype::U8,
            8 => Dtype::U16,
            9 => Dtype::U32,
            _ => Dtype::U64,
        }
    }

    /// Bytes per element.
    pub open spec fn size(self) -> nat {
        match self {
            Dtype::F32 | Dtype::I32 | Dtype::U32 => 4,
            Dtype::F16 | Dtype::Bf16 | Dtype::I16 | Dtype::U16 => 2,
            Dtype::I8 | Dtype::U8 => 1,
            Dtype::I64 | Dtype::U64 => 8,
        }
    }

    pub fn element_size(&self) -> (r: usize)
        ensures
            r == self.size(),
    {
        match self {
            Dtype::F32 | Dtype::I32 | Dtype::U32 => 4,
            Dtype::F16 | Dtype::Bf16 | Dtype::I16 | Dtype::U16 => 2,
            Dtype::I8 | Dtype::U8 => 1,
            Dtype::I64 | Dtype::U64 => 8,
        }
    }
}

impl OpTag {
    /// Number of the operation, counted in declaration order.
    pub open spec fn tag(self) -> int {
        match self {
            OpTag::Matmul => 0,
            OpTag::Add => 1,
            OpTag::Sub => 2,
            OpTag::Mul => 3,
            OpTag::Div => 4,
            OpTag::Sigmoid => 5,
            OpTag::Relu => 6,
            OpTag::Tanh => 7,
            OpTag::Exp => 8,
            OpTag::Log => 9,
            OpTag::Sqrt => 10,
            OpTag::Abs => 11,
            OpTag::Sum => 12,
            OpTag::Transpose => 13,
            OpTag::Neg => 14,
            OpTag::ReduceSumAxis => 15,
            OpTag::ReduceMeanAxis => 16,
            OpTag::ReduceMaxAxis => 17,
            OpTag::ReduceVarAxis => 18,
            OpTag::Reshape => 19,
            OpTag::Softmax => 20,
            OpTag::Layernorm => 21,
            OpTag::Gelu => 22,
            OpTag::CrossEntropy => 23,
            OpTag::Embedding => 24,
        }
    }

    pub fn to_tag(&self) -> (r: i32)
        ensures
            r == self.tag(),
    {
        match self {
            OpTag::Matmul => 0,
            OpTag::Add => 1,
            OpTag::Sub => 2,
            OpTag::Mul => 3,
            OpTag::Div => 4,
            OpTag::Sigmoid => 5,
            OpTag::Relu => 6,
            OpTag::Tanh => 7,
            OpTag::Exp => 8,
            OpTag::Log => 9,
            OpTag::Sqrt => 10,
            OpTag::Abs => 11,
            OpTag::Sum => 12,
            OpTag::Transpose => 13,
            OpTag::Neg => 14,
            OpTag::ReduceSumAxis => 15,
            OpTag::ReduceMeanAxis => 16,
            OpTag::ReduceMaxAxis => 17,
            OpTag::ReduceVarAxis => 18,
            OpTag::Reshape => 19,
            OpTag::Softmax => 20,
            OpTag::Layernorm => 21,
            OpTag::Gelu => 22,
            OpTag::CrossEntropy => 23,
            OpTag::Embedding => 24,
        }
    }

    /// The operation with a number.
    pub fn from_tag(tag: i32) -> (r: Self)
        requires
            0 <= tag < 25,
        ensures
            r.tag() == tag,
    {
        match tag {
            0 => OpTag::Matmul,
            1 => OpTag::Add,
            2 => OpTag::Sub,
            3 => OpTag::Mul,
            4 => OpTag::Div,
            5 => OpTag::Sigmoid,
            6 => OpTag::Relu,
            7 => OpTag::Tanh,
            8 => OpTag::Exp,
            9 => OpTag::Log,
            10 => OpTag::Sqrt,
            11 => OpTag::Abs,
            12 => OpTag::Sum,
            13 => OpTag::Transpose,
            14 => OpTag::Neg,
            15 => OpTag::ReduceSumAxis,
            16 => OpTag::ReduceMeanAxis,
            17 => OpTag::ReduceMaxAxis,
            18 => OpTag::ReduceVarAxis,
            19 => OpTag::Reshape,
            20 => OpTag::Softmax,
            21 => OpTag::Layernorm,
            22 => OpTag::Gelu,
            23 => OpTag::CrossEntropy,
            _ => OpTag::Embedding,
        }
    }
}

impl BwdSlot {
    /// Number of the slot, counted in declaration order.
    pub open spec fn tag(self) -> int {
        match self {
            BwdSlot::AddBwdA => 0,
            BwdSlot::AddBwdB => 1,
            BwdSlot::SubBwdA => 2,
            BwdSlot::SubBwdB => 3,
            BwdSlot::MulBwdA => 4,
            BwdSlot::MulBwdB => 5,
            BwdSlot::DivBwdA => 6,
            BwdSlot::DivBwdB => 7,
            BwdSlot::SigmoidBwd => 8,
            BwdSlot::ReluBwd => 9,
            BwdSlot::TanhBwd => 10,
            BwdSlot::ExpBwd => 11,
            BwdSlot::LogBwd => 12,
            BwdSlot::SqrtBwd => 13,
            BwdSlot::AbsBwd => 14,
            BwdSlot::NegBwd => 15,
            BwdSlot::SumBwd => 16,
            BwdSlot::PermuteNdFwd => 17,
            BwdSlot::ReduceSumAxisBwd => 18,
            BwdSlot::ReduceMeanAxisBwd => 19,
            BwdSlot::ReduceMaxAxisBwd => 20,
            BwdSlot::ReduceVarAxisBwd => 21,
            BwdSlot::SoftmaxBwd => 22,
            BwdSlot::LayernormBwd => 23,
            BwdSlot::GeluBwd => 24,
            BwdSlot::CrossEntropyBwd => 25,
            BwdSlot::EmbeddingBwd => 26,
            BwdSlot::MatmulBwdA => 27,
            BwdSlot::MatmulBwdB => 28,
            BwdSlot::GradAcc => 29,
        }
    }

    pub fn to_tag(&self) -> (r: i32)
        ensures
            r == self.tag(),
    {
        match self {
            BwdSlot::AddBwdA => 0,
            BwdSlot::AddBwdB => 1,
            BwdSlot::SubBwdA => 2,
            BwdSlot::SubBwdB => 3,
            BwdSlot::MulBwdA => 4,
            BwdSlot::MulBwdB => 5,
            BwdSlot::DivBwdA => 6,
            BwdSlot::DivBwdB => 7,
            BwdSlot::SigmoidBwd => 8,
            BwdSlot::ReluBwd => 9,
            BwdSlot::TanhBwd => 10,
            BwdSlot::ExpBwd => 11,
            BwdSlot::LogBwd => 12,
            BwdSlot::SqrtBwd => 13,
            BwdSlot::AbsBwd => 14,
            BwdSlot::NegBwd => 15,
            BwdSlot::SumBwd => 16,
            BwdSlot::PermuteNdFwd => 17,
            BwdSlot::ReduceSumAxisBwd => 18,
            BwdSlot::ReduceMeanAxisBwd => 19,
            BwdSlot::ReduceMaxAxisBwd => 20,
            BwdSlot::ReduceVarAxisBwd => 21,
            BwdSlot::SoftmaxBwd => 22,
            BwdSlot::LayernormBwd => 23,
            BwdSlot::GeluBwd => 24,
            BwdSlot::CrossEntropyBwd => 25,
            BwdSlot::EmbeddingBwd => 26,
            BwdSlot::MatmulBwdA => 27,
            BwdSlot::MatmulBwdB => 28,
            BwdSlot::GradAcc => 29,
        }
    }

    /// The slot with a number.
    pub fn from_tag(tag: i32) -> (r: Self)
        requires
            0 <= tag < 30,
        ensures
            r.tag() == tag,
    {
        match tag {
            0 => BwdSlot::AddBwdA,
            1 => BwdSlot::AddBwdB,
            2 => BwdSlot::SubBwdA,
            3 => BwdSlot::SubBwdB,
            4 => BwdSlot::MulBwdA,
            5 => BwdSlot::MulBwdB,
            6 => BwdSlot::DivBwdA,
            7 => BwdSlot::DivBwdB,
            8 => BwdSlot::SigmoidBwd,
            9 => BwdSlot::ReluBwd,
            10 => BwdSlot::TanhBwd,
            11 => BwdSlot::ExpBwd,
            12 => BwdSlot::LogBwd,
            13 => BwdSlot::SqrtBwd,
            14 => BwdSlot::AbsBwd,
            15 => BwdSlot::NegBwd,
            16 => BwdSlot::SumBwd,
            17 => BwdSlot::PermuteNdFwd,
            18 => BwdSlot::ReduceSumAxisBwd,
            19 => BwdSlot::ReduceMeanAxisBwd,
            20 => BwdSlot::ReduceMaxAxisBwd,
            21 => BwdSlot::ReduceVarAxisBwd,
            22 => BwdSlot::SoftmaxBwd,
            23 => BwdSlot::LayernormBwd,
            24 => BwdSlot::GeluBwd,
            25 => BwdSlot::CrossEntropyBwd,
            26 => BwdSlot::EmbeddingBwd,
            27 => BwdSlot::MatmulBwdA,
            28 => BwdSlot::MatmulBwdB,
            _ => BwdSlot::GradAcc,
        }
    }

    /// Library function that fills the slot. Several slots hold a forward
    /// function: the gradient of `exp` multiplies by its result, that of `log`
    /// divides, that of negation scales by minus one, and a permutation is
    /// undone by the inverse permutation.
    pub open spec fn fn_text(self) -> Seq<char> {
        match self {
            BwdSlot::AddBwdA => "__add_bwd_a"@,
            BwdSlot::AddBwdB => "__add_bwd_b"@,
            BwdSlot::SubBwdA => "__sub_bwd_a"@,
            BwdSlot::SubBwdB => "__sub_bwd_b"@,
            BwdSlot::MulBwdA => "__mul_bwd_a"@,
            BwdSlot::MulBwdB => "__mul_bwd_b"@,
            BwdSlot::DivBwdA => "__div_bwd_a"@,
            BwdSlot::DivBwdB => "__div_bwd_b"@,
            BwdSlot::SigmoidBwd => "__sigmoid_bwd"@,
            BwdSlot::ReluBwd => "__relu_bwd"@,
            BwdSlot::TanhBwd => "__tanh_bwd"@,
            BwdSlot::ExpBwd => "__broadcast_mul_fwd"@,
            BwdSlot::LogBwd => "__broadcast_div_fwd"@,
            BwdSlot::SqrtBwd => "__sqrt_bwd"@,
            BwdSlot::AbsBwd => "__abs_bwd"@,
            BwdSlot::NegBwd => "__scale_fwd"@,
            BwdSlot::SumBwd => "__sum_bwd"@,
            BwdSlot::PermuteNdFwd => "__permute_nd_fwd"@,
            BwdSlot::ReduceSumAxisBwd => "__reduce_sum_axis_bwd"@,
            BwdSlot::ReduceMeanAxisBwd => "__reduce_mean_axis_bwd"@,
            BwdSlot::ReduceMaxAxisBwd => "__reduce_max_axis_bwd"@,
            BwdSlot::ReduceVarAxisBwd => "__reduce_var_axis_bwd"@,
            BwdSlot::SoftmaxBwd => "__softmax_bwd"@,
            BwdSlot::LayernormBwd => "__layernorm_bwd"@,
            BwdSlot::GeluBwd => "__gelu_bwd"@,
            BwdSlot::CrossEntropyBwd => "__cross_entropy_bwd"@,
            BwdSlot::EmbeddingBwd => "__embedding_bwd"@,
            BwdSlot::MatmulBwdA => "__matmul_bwd_a"@,
            BwdSlot::MatmulBwdB => "__matmul_bwd_b"@,
            BwdSlot::GradAcc => "__broadcast_add_fwd"@,
        }
    }

    pub fn fn_name(&self) -> (r: &'static str)
        ensures
            r@ == self.fn_text(),
    {
        match self {
            BwdSlot::AddBwdA => "__add_bwd_a",
            BwdSlot::AddBwdB => "__add_bwd_b",
            BwdSlot::SubBwdA => "__sub_bwd_a",
            BwdSlot::SubBwdB => "__sub_bwd_b",
            BwdSlot::MulBwdA => "__mul_bwd_a",
            BwdSlot::MulBwdB => "__mul_bwd_b",
            BwdSlot::DivBwdA => "__div_bwd_a",
            BwdSlot::DivBwdB => "__div_bwd_b",
            BwdSlot::SigmoidBwd => "__sigmoid_bwd",
            BwdSlot::ReluBwd => "__relu_bwd",
            BwdSlot::TanhBwd => "__tanh_bwd",
            BwdSlot::ExpBwd => "__broadcast_mul_fwd",
            BwdSlot::LogBwd => "__broadcast_div_fwd",
            BwdSlot::SqrtBwd => "__sqrt_bwd",
            BwdSlot::AbsBwd => "__abs_bwd",
            BwdSlot::NegBwd => "__scale_fwd",
            BwdSlot::SumBwd => "__sum_bwd",
            BwdSlot::PermuteNdFwd => "__permute_nd_fwd",
            BwdSlot::ReduceSumAxisBwd => "__reduce_sum_axis_bwd",
            BwdSlot::ReduceMeanAxisBwd => "__reduce_mean_axis_bwd",
            BwdSlot::ReduceMaxAxisBwd => "__reduce_max_axis_bwd",
            BwdSlot::ReduceVarAxisBwd => "__reduce_var_axis_bwd",
            BwdSlot::SoftmaxBwd => "__softmax_bwd",
            BwdSlot::LayernormBwd => "__layernorm_bwd",
            BwdSlot::GeluBwd => "__gelu_bwd",
            BwdSlot::CrossEntropyBwd => "__cross_entropy_bwd",
            BwdSlot::EmbeddingBwd => "__embedding_bwd",
            BwdSlot::MatmulBwdA => "__matmul_bwd_a",
            BwdSlot::MatmulBwdB => "__matmul_bwd_b",
            BwdSlot::GradAcc => "__broadcast_add_fwd",
        }
    }
}

/// Different element types have different numbers.
pub proof fn dtype_tags_distinct(a: Dtype, b: Dtype)
    ensures
        0 <= a.tag() < 11,
        a.tag() == b.tag() <==> a == b,
{
}

/// Different operations have different numbers.
pub proof fn op_tags_distinct(a: OpTag, b: OpTag)
    ensures
        0 <= a.tag() < 25,
        a.tag() == b.tag() <==> a == b,
{
}

/// Different slots have different numbers, and every number below the table
/// size belongs to a slot.
pub proof fn bwd_slots_distinct(a: BwdSlot, b: BwdSlot)
    ensures
        0 <= a.tag() < N_BWD_SLOTS,
        a.tag() == b.tag() <==> a == b,
{
}

/// The element type of the runtime that corresponds to one of the language.
pub open spec fn dtype_of(s: ScalarTy) -> Dtype {
    match s {
        ScalarTy::F32 => Dtype::F32,
        ScalarTy::F16 => Dtype::F16,
        ScalarTy::Bf16 => Dtype::Bf16,
        ScalarTy::I8 => Dtype::I8,
        ScalarTy::I16 => Dtype::I16,
        ScalarTy::I32 => Dtype::I32,
        ScalarTy::I64 => Dtype::I64,
        ScalarTy::U8 => Dtype::U8,
        ScalarTy::U16 => Dtype::U16,
        ScalarTy::U32 => Dtype::U32,
        ScalarTy::U64 => Dtype::U64,
    }
}

/// Generated code and the runtime agree on the numbers of element types.
pub proof fn dtype_tags_agree(s: ScalarTy)
    ensures
        s.code() == dtype_of(s).tag(),
{
}

/// Generated code and the runtime agree on the numbers of recorded binary
/// operators.
pub proof fn binop_tags_agree(op: BinOp)
    ensures
        op.optag() == (match op {
            BinOp::Matmul => Some(OpTag::Matmul.tag() as i32),
            BinOp::Add => Some(OpTag::Add.tag() as i32),
            BinOp::Sub => Some(OpTag::Sub.tag() as i32),
            BinOp::Mul => Some(OpTag::Mul.tag() as i32),
            BinOp::Div => Some(OpTag::Div.tag() as i32),
            _ => None,
        }),
{
}

/// Generated code and the runtime agree on the numbers of the other recorded
/// operations.
pub proof fn record_tags_agree()
    ensures
        builtins::OPTAG_SIGMOID == OpTag::Sigmoid.tag(),
        builtins::OPTAG_RELU == OpTag::Relu.tag(),
        builtins::OPTAG_TANH == OpTag::Tanh.tag(),
        builtins::OPTAG_EXP == OpTag::Exp.tag(),
        builtins::OPTAG_LOG == OpTag::Log.tag(),
        builtins::OPTAG_SQRT == OpTag::Sqrt.tag(),
        builtins::OPTAG_ABS == OpTag::Abs.tag(),
        builtins::OPTAG_SUM == OpTag::Sum.tag(),
        builtins::OPTAG_TRANSPOSE == OpTag::Transpose.tag(),
        builtins::OPTAG_NEG == OpTag::Neg.tag(),
        builtins::OPTAG_REDUCE_SUM_AXIS == OpTag::ReduceSumAxis.tag(),
        builtins::OPTAG_REDUCE_MEAN_AXIS == OpTag::ReduceMeanAxis.tag(),
        builtins::OPTAG_REDUCE_MAX_AXIS == OpTag::ReduceMaxAxis.tag(),
        builtins::OPTAG_REDUCE_VAR_AXIS == OpTag::ReduceVarAxis.tag(),
        builtins::OPTAG_RESHAPE == OpTag::Reshape.tag(),
        builtins::OPTAG_SOFTMAX == OpTag::Softmax.tag(),
        builtins::OPTAG_LAYERNORM == OpTag::Layernorm.tag(),
        builtins::OPTAG_GELU == OpTag::Gelu.tag(),
        builtins::OPTAG_CROSS_ENTROPY == OpTag::CrossEntropy.tag(),
        builtins::OPTAG_EMBEDDING == OpTag::Embedding.tag(),
{
}

} // verus!
