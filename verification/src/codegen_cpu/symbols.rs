//! The runtime functions that generated code calls: their linker names and
//! calling signatures, in the order in which a back end declares them.

use crate::codegen_cpu::inst::ClTy;
use vstd::prelude::*;

verus! {

/// A function of the runtime that generated code may call.
#[derive(Clone, Copy, Debug, PartialEq, Eq, Structural)]
pub enum RtSym {
    TensorAllocGpu,
    TensorPrint,
    TensorFree,
    KernelDispatch,
    GpuBarrier,
    TensorAllocZerosGpu,
    TensorAllocOnesGpu,
    TensorMatmul,
    TensorLen,
    PrintCstr,
    PrintF32,
    PrintI64,
    PrintBool,
    TensorRetain,
    TensorRelease,
    Malloc,
    HeapFree,
    AggregateAlloc,
    AggregateRetain,
    AggregateRelease,
    ListRelease,
    TapeRecordBinop,
    TapeRecordUnary,
    TapeRegisterLeaf,
    Backward,
    TapeClear,
    TapePause,
    TapeResume,
    TapeGetGrad,
    TapeZeroGrad,
    TapeRecordReduce,
    TensorReshape,
    TensorPermute,
    TapeRecordPerm,
    TensorCausalMask,
    TapeRecordLayernorm,
    TapeRecordCrossEntropy,
    TensorRandn,
    TapeRecordEmbedding,
    Powf,
    StrBox,
    ReadFile,
    StrLen,
    StrCharAt,
    StrFromChar,
    PrintStr,
    RandUniform,
    RecordDiff,
    BufferI32,
    BufferGetI32,
    BufferSetI32,
    BufferFree,
    BufferFreezeI32,
    RandInt,
    TensorGetF32,
    TensorNdim,
    TensorDim,
    KernelDispatchV2,
}

impl RtSym {
    /// Linker name.
    pub open spec fn symbol(self) -> Seq<char> {
        match self {
            RtSym::TensorAllocGpu => "tensor_alloc_gpu"@,
            RtSym::TensorPrint => "tensor_print"@,
            RtSym::TensorFree => "tensor_free"@,
            RtSym::KernelDispatch => "kernel_dispatch"@,
            RtSym::GpuBarrier => "gpu_barrier"@,
            RtSym::TensorAllocZerosGpu => "tensor_alloc_zeros_gpu"@,
            RtSym::TensorAllocOnesGpu => "tensor_alloc_ones_gpu"@,
            RtSym::TensorMatmul => "tensor_matmul"@,
            RtSym::TensorLen => "tensor_len"@,
            RtSym::PrintCstr => "print_cstr"@,
            RtSym::PrintF32 => "print_f32"@,
            RtSym::PrintI64 => "print_i64"@,
            RtSym::PrintBool => "print_bool"@,
            RtSym::TensorRetain => "tensor_retain"@,
            RtSym::TensorRelease => "tensor_release"@,
            RtSym::Malloc => "malloc"@,
            RtSym::HeapFree => "free"@,
            RtSym::AggregateAlloc => "aggregate_alloc"@,
            RtSym::AggregateRetain => "aggregate_retain"@,
            RtSym::AggregateRelease => "aggregate_release"@,
            RtSym::ListRelease => "list_release"@,
            RtSym::TapeRecordBinop => "tape_record_binop"@,
            RtSym::TapeRecordUnary => "tape_record_unary"@,
            RtSym::TapeRegisterLeaf => "tape_register_leaf"@,
            RtSym::Backward => "backward"@,
            RtSym::TapeClear => "tape_clear"@,
            RtSym::TapePause => "tape_pause"@,
            RtSym::TapeResume => "tape_resume"@,
            RtSym::TapeGetGrad => "tape_get_grad"@,
            RtSym::TapeZeroGrad => "tape_zero_grad"@,
            RtSym::TapeRecordReduce => "tape_record_reduce"@,
            RtSym::TensorReshape => "tensor_reshape"@,
            RtSym::TensorPermute => "tensor_permute"@,
            RtSym::TapeRecordPerm => "tape_record_perm"@,
            RtSym::TensorCausalMask => "tensor_causal_mask"@,
            RtSym::TapeRecordLayernorm => "tape_record_layernorm"@,
            RtSym::TapeRecordCrossEntropy => "tape_record_cross_entropy"@,
            RtSym::TensorRandn => "tensor_randn"@,
            RtSym::TapeRecordEmbedding => "tape_record_embedding"@,
            RtSym::Powf => "malus_powf"@,
            RtSym::StrBox => "malus_str_box"@,
            RtSym::ReadFile => "malus_read_file"@,
            RtSym::StrLen => "malus_str_len"@,
            RtSym::StrCharAt => "malus_str_char_at"@,
            RtSym::StrFromChar => "malus_str_from_char"@,
            RtSym::PrintStr => "print_str"@,
            RtSym::RandUniform => "malus_rand_uniform"@,
            RtSym::RecordDiff => "malus_record_diff"@,
            RtSym::BufferI32 => "malus_buffer_i32"@,
            RtSym::BufferGetI32 => "malus_buffer_get_i32"@,
            RtSym::BufferSetI32 => "malus_buffer_set_i32"@,
            RtSym::BufferFree => "malus_buffer_free"@,
            RtSym::BufferFreezeI32 => "malus_buffer_freeze_i32"@,
            RtSym::RandInt => "malus_rand_int"@,
            RtSym::TensorGetF32 => "malus_tensor_get_f32"@,
            RtSym::TensorNdim => "tensor_ndim"@,
            RtSym::TensorDim => "tensor_dim"@,
            RtSym::KernelDispatchV2 => "kernel_dispatch_v2"@,
        }
    }

    pub fn name(self) -> (r: &'static str)
        ensures
            r@ == self.symbol(),
    {
        match self {
            RtSym::TensorAllocGpu => "tensor_alloc_gpu",
            RtSym::TensorPrint => "tensor_print",
            RtSym::TensorFree => "tensor_free",
            RtSym::KernelDispatch => "kernel_dispatch",
            RtSym::GpuBarrier => "gpu_barrier",
            RtSym::TensorAllocZerosGpu => "tensor_alloc_zeros_gpu",
            RtSym::TensorAllocOnesGpu => "tensor_alloc_ones_gpu",
            RtSym::TensorMatmul => "tensor_matmul",
            RtSym::TensorLen => "tensor_len",
            RtSym::PrintCstr => "print_cstr",
            RtSym::PrintF32 => "print_f32",
            RtSym::PrintI64 => "print_i64",
            RtSym::PrintBool => "print_bool",
            RtSym::TensorRetain => "tensor_retain",
            RtSym::TensorRelease => "tensor_release",
            RtSym::Malloc => "malloc",
            RtSym::HeapFree => "free",
            RtSym::AggregateAlloc => "aggregate_alloc",
            RtSym::AggregateRetain => "aggregate_retain",
            RtSym::AggregateRelease => "aggregate_release",
            RtSym::ListRelease => "list_release",
            RtSym::TapeRecordBinop => "tape_record_binop",
            RtSym::TapeRecordUnary => "tape_record_unary",
            RtSym::TapeRegisterLeaf => "tape_register_leaf",
            RtSym::Backward => "backward",
            RtSym::TapeClear => "tape_clear",
            RtSym::TapePause => "tape_pause",
            RtSym::TapeResume => "tape_resume",
            RtSym::TapeGetGrad => "tape_get_grad",
            RtSym::TapeZeroGrad => "tape_zero_grad",
            RtSym::TapeRecordReduce => "tape_record_reduce",
            RtSym::TensorReshape => "tensor_reshape",
            RtSym::TensorPermute => "tensor_permute",
            RtSym::TapeRecordPerm => "tape_record_perm",
            RtSym::TensorCausalMask => "tensor_causal_mask",
            RtSym::TapeRecordLayernorm => "tape_record_layernorm",
            RtSym::TapeRecordCrossEntropy => "tape_record_cross_entropy",
            RtSym::TensorRandn => "tensor_randn",
            RtSym::TapeRecordEmbedding => "tape_record_embedding",
            RtSym::Powf => "malus_powf",
            RtSym::StrBox => "malus_str_box",
            RtSym::ReadFile => "malus_read_file",
            RtSym::StrLen => "malus_str_len",
            RtSym::StrCharAt => "malus_str_char_at",
            RtSym::StrFromChar => "malus_str_from_char",
            RtSym::PrintStr => "print_str",
            RtSym::RandUniform => "malus_rand_uniform",
            RtSym::RecordDiff => "malus_record_diff",
            RtSym::BufferI32 => "malus_buffer_i32",
            RtSym::BufferGetI32 => "malus_buffer_get_i32",
            RtSym::BufferSetI32 => "malus_buffer_set_i32",
            RtSym::BufferFree => "malus_buffer_free",
            RtSym::BufferFreezeI32 => "malus_buffer_freeze_i32",
            RtSym::RandInt => "malus_rand_int",
            RtSym::TensorGetF32 => "malus_tensor_get_f32",
            RtSym::TensorNdim => "tensor_ndim",
            RtSym::TensorDim => "tensor_dim",
            RtSym::KernelDispatchV2 => "kernel_dispatch_v2",
        }
    }

    /// Machine types of the parameters, in order.
    pub open spec fn params(self) -> Seq<ClTy> {
        match self {
            RtSym::TensorAllocGpu => seq![ClTy::I32, ClTy::Ptr, ClTy::Ptr, ClTy::Ptr],
            RtSym::TensorPrint
            | RtSym::TensorFree
            | RtSym::TensorLen
            | RtSym::PrintI64
            | RtSym::TensorRetain
            | RtSym::TensorRelease
            | RtSym::HeapFree
            | RtSym::AggregateAlloc
            | RtSym::AggregateRetain
            | RtSym::AggregateRelease
            | RtSym::ListRelease
            | RtSym::TapeRegisterLeaf
            | RtSym::Backward
            | RtSym::TapeGetGrad
            | RtSym::TensorCausalMask
            | RtSym::ReadFile
            | RtSym::StrLen
            | RtSym::StrFromChar
            | RtSym::PrintStr
            | RtSym::BufferI32
            | RtSym::BufferFree
            | RtSym::BufferFreezeI32
            | RtSym::RandInt
            | RtSym::TensorNdim => seq![ClTy::I64],
            RtSym::KernelDispatch
            | RtSym::TensorReshape
            | RtSym::TensorPermute => seq![ClTy::I64, ClTy::Ptr, ClTy::Ptr],
            RtSym::GpuBarrier
            | RtSym::TapeClear
            | RtSym::TapePause
            | RtSym::TapeResume
            | RtSym::RandUniform => Seq::empty(),
            RtSym::TensorAllocZerosGpu
            | RtSym::TensorAllocOnesGpu
            | RtSym::TapeZeroGrad
            | RtSym::TensorRandn
            | RtSym::StrBox => seq![ClTy::Ptr, ClTy::Ptr],
            RtSym::TensorMatmul
            | RtSym::StrCharAt
            | RtSym::BufferGetI32
            | RtSym::TensorGetF32
            | RtSym::TensorDim => seq![ClTy::I64, ClTy::I64],
            RtSym::PrintCstr
            | RtSym::Malloc => seq![ClTy::Ptr],
            RtSym::PrintF32
            | RtSym::RecordDiff => seq![ClTy::F32],
            RtSym::PrintBool => seq![ClTy::I8],
            RtSym::TapeRecordBinop
            | RtSym::TapeRecordEmbedding => seq![ClTy::I32, ClTy::I64, ClTy::I64, ClTy::I64],
            RtSym::TapeRecordUnary => seq![ClTy::I32, ClTy::I64, ClTy::I64],
            RtSym::TapeRecordReduce
            | RtSym::TapeRecordLayernorm
            | RtSym::TapeRecordCrossEntropy => seq![ClTy::I32, ClTy::I64, ClTy::I64, ClTy::I64, ClTy::I64],
            RtSym::TapeRecordPerm => seq![ClTy::I32, ClTy::I64, ClTy::I64, ClTy::Ptr, ClTy::Ptr],
            RtSym::Powf => seq![ClTy::F32, ClTy::F32],
            RtSym::BufferSetI32 => seq![ClTy::I64, ClTy::I64, ClTy::I64],
            RtSym::KernelDispatchV2 => seq![ClTy::I64, ClTy::Ptr, ClTy::Ptr, ClTy::Ptr, ClTy::Ptr, ClTy::Ptr, ClTy::Ptr, ClTy::I32, ClTy::Ptr, ClTy::Ptr],
        }
    }

    /// Number of parameters.
    pub open spec fn arity(self) -> nat {
        match self {
            RtSym::GpuBarrier
            | RtSym::TapeClear
            | RtSym::TapePause
            | RtSym::TapeResume
            | RtSym::RandUniform => 0,
            RtSym::TensorPrint
            | RtSym::TensorFree
            | RtSym::TensorLen
            | RtSym::PrintI64
            | RtSym::TensorRetain
            | RtSym::TensorRelease
            | RtSym::HeapFree
            | RtSym::AggregateAlloc
            | RtSym::AggregateRetain
            | RtSym::AggregateRelease
            | RtSym::ListRelease
            | RtSym::TapeRegisterLeaf
            | RtSym::Backward
            | RtSym::TapeGetGrad
            | RtSym::TensorCausalMask
            | RtSym::ReadFile
            | RtSym::StrLen
            | RtSym::StrFromChar
            | RtSym::PrintStr
            | RtSym::BufferI32
            | RtSym::BufferFree
            | RtSym::BufferFreezeI32
            | RtSym::RandInt
            | RtSym::TensorNdim
            | RtSym::PrintCstr
            | RtSym::Malloc
            | RtSym::PrintF32
            | RtSym::RecordDiff
            | RtSym::PrintBool => 1,
            RtSym::TensorAllocZerosGpu
            | RtSym::TensorAllocOnesGpu
            | RtSym::TapeZeroGrad
            | RtSym::TensorRandn
            | RtSym::StrBox
            | RtSym::TensorMatmul
            | RtSym::StrCharAt
            | RtSym::BufferGetI32
            | RtSym::TensorGetF32
            | RtSym::TensorDim
            | RtSym::Powf => 2,
            RtSym::KernelDispatch
            | RtSym::TensorReshape
            | RtSym::TensorPermute
            | RtSym::TapeRecordUnary
            | RtSym::BufferSetI32 => 3,
            RtSym::TensorAllocGpu
            | RtSym::TapeRecordBinop
            | RtSym::TapeRecordEmbedding => 4,
            RtSym::TapeRecordReduce
            | RtSym::TapeRecordLayernorm
            | RtSym::TapeRecordCrossEntropy
            | RtSym::TapeRecordPerm => 5,
            RtSym::KernelDispatchV2 => 10,
        }
    }

    pub fn param_types(self) -> (r: Vec<ClTy>)
        ensures
            r@ == self.params(),
    {
        let mut out: Vec<ClTy> = Vec::new();
        match self {
            RtSym::TensorAllocGpu => {
                out.push(ClTy::I32);
                out.push(ClTy::Ptr);
                out.push(ClTy::Ptr);
                out.push(ClTy::Ptr);
            },
            RtSym::TensorPrint
            | RtSym::TensorFree
            | RtSym::TensorLen
            | RtSym::PrintI64
            | RtSym::TensorRetain
            | RtSym::TensorRelease
            | RtSym::HeapFree
            | RtSym::AggregateAlloc
            | RtSym::AggregateRetain
            | RtSym::AggregateRelease
            | RtSym::ListRelease
            | RtSym::TapeRegisterLeaf
            | RtSym::Backward
            | RtSym::TapeGetGrad
            | RtSym::TensorCausalMask
            | RtSym::ReadFile
            | RtSym::StrLen
            | RtSym::StrFromChar
            | RtSym::PrintStr
            | RtSym::BufferI32
            | RtSym::BufferFree
            | RtSym::BufferFreezeI32
            | RtSym::RandInt
            | RtSym::TensorNdim => {
                out.push(ClTy::I64);
            },
            RtSym::KernelDispatch
            | RtSym::TensorReshape
            | RtSym::TensorPermute => {
                out.push(ClTy::I64);
                out.push(ClTy::Ptr);
                out.push(ClTy::Ptr);
            },
            RtSym::GpuBarrier
            | RtSym::TapeClear
            | RtSym::TapePause
            | RtSym::TapeResume
            | RtSym::RandUniform => {
            },
            RtSym::TensorAllocZerosGpu
            | RtSym::TensorAllocOnesGpu
            | RtSym::TapeZeroGrad
            | RtSym::TensorRandn
            | RtSym::StrBox => {
                out.push(ClTy::Ptr);
                out.push(ClTy::Ptr);
            },
            RtSym::TensorMatmul
            | RtSym::StrCharAt
            | RtSym::BufferGetI32
            | RtSym::TensorGetF32
            | RtSym::TensorDim => {
                out.push(ClTy::I64);
                out.push(ClTy::I64);
            },
            RtSym::PrintCstr
            | RtSym::Malloc => {
                out.push(ClTy::Ptr);
            },
            RtSym::PrintF32
            | RtSym::RecordDiff => {
                out.push(ClTy::F32);
            },
            RtSym::PrintBool => {
                out.push(ClTy::I8);
            },
            RtSym::TapeRecordBinop
            | RtSym::TapeRecordEmbedding => {
                out.push(ClTy::I32);
                out.push(ClTy::I64);
                out.push(ClTy::I64);
                out.push(ClTy::I64);
            },
            RtSym::TapeRecordUnary => {
                out.push(ClTy::I32);
                out.push(ClTy::I64);
                out.push(ClTy::I64);
            },
            RtSym::TapeRecordReduce
            | RtSym::TapeRecordLayernorm
            | RtSym::TapeRecordCrossEntropy => {
                out.push(ClTy::I32);
                out.push(ClTy::I64);
                out.push(ClTy::I64);
                out.push(ClTy::I64);
                out.push(ClTy::I64);
            },
            RtSym::TapeRecordPerm => {
                out.push(ClTy::I32);
                out.push(ClTy::I64);
                out.push(ClTy::I64);
                out.push(ClTy::Ptr);
                out.push(ClTy::Ptr);
            },
            RtSym::Powf => {
                out.push(ClTy::F32);
                out.push(ClTy::F32);
            },
            RtSym::BufferSetI32 => {
                out.push(ClTy::I64);
                out.push(ClTy::I64);
                out.push(ClTy::I64);
            },
            RtSym::KernelDispatchV2 => {
                out.push(ClTy::I64);
                out.push(ClTy::Ptr);
                out.push(ClTy::Ptr);
                out.push(ClTy::Ptr);
                out.push(ClTy::Ptr);
                out.push(ClTy::Ptr);
                out.push(ClTy::Ptr);
                out.push(ClTy::I32);
                out.push(ClTy::Ptr);
                out.push(ClTy::Ptr);
            },
        }
        out
    }

    /// Machine type of the result, if there is one.
    pub open spec fn ret(self) -> Option<ClTy> {
        match self {
            RtSym::TensorAllocGpu
            | RtSym::KernelDispatch
            | RtSym::TensorAllocZerosGpu
            | RtSym::TensorAllocOnesGpu
            | RtSym::TensorMatmul
            | RtSym::TensorLen
            | RtSym::Malloc
            | RtSym::AggregateAlloc
            | RtSym::ListRelease
            | RtSym::TapeGetGrad
            | RtSym::TensorReshape
            | RtSym::TensorPermute
            | RtSym::TensorCausalMask
            | RtSym::TensorRandn
            | RtSym::StrBox
            | RtSym::ReadFile
            | RtSym::StrLen
            | RtSym::StrCharAt
            | RtSym::StrFromChar
            | RtSym::BufferI32
            | RtSym::BufferGetI32
            | RtSym::BufferFreezeI32
            | RtSym::RandInt
            | RtSym::TensorNdim
            | RtSym::TensorDim
            | RtSym::KernelDispatchV2 => Some(ClTy::I64),
            RtSym::TensorPrint
            | RtSym::TensorFree
            | RtSym::GpuBarrier
            | RtSym::PrintCstr
            | RtSym::PrintF32
            | RtSym::PrintI64
            | RtSym::PrintBool
            | RtSym::TensorRetain
            | RtSym::TensorRelease
            | RtSym::HeapFree
            | RtSym::AggregateRetain
            | RtSym::AggregateRelease
            | RtSym::TapeRecordBinop
            | RtSym::TapeRecordUnary
            | RtSym::TapeRegisterLeaf
            | RtSym::Backward
            | RtSym::TapeClear
            | RtSym::TapePause
            | RtSym::TapeResume
            | RtSym::TapeZeroGrad
            | RtSym::TapeRecordReduce
            | RtSym::TapeRecordPerm
            | RtSym::TapeRecordLayernorm
            | RtSym::TapeRecordCrossEntropy
            | RtSym::TapeRecordEmbedding
            | RtSym::PrintStr
            | RtSym::RecordDiff
            | RtSym::BufferSetI32
            | RtSym::BufferFree => None,
            RtSym::Powf
            | RtSym::RandUniform
            | RtSym::TensorGetF32 => Some(ClTy::F32),
        }
    }

    pub fn result_type(self) -> (r: Option<ClTy>)
        ensures
            r == self.ret(),
    {
        match self {
            RtSym::TensorAllocGpu
            | RtSym::KernelDispatch
            | RtSym::TensorAllocZerosGpu
            | RtSym::TensorAllocOnesGpu
            | RtSym::TensorMatmul
            | RtSym::TensorLen
            | RtSym::Malloc
            | RtSym::AggregateAlloc
            | RtSym::ListRelease
            | RtSym::TapeGetGrad
            | RtSym::TensorReshape
            | RtSym::TensorPermute
            | RtSym::TensorCausalMask
            | RtSym::TensorRandn
            | RtSym::StrBox
            | RtSym::ReadFile
            | RtSym::StrLen
            | RtSym::StrCharAt
            | RtSym::StrFromChar
            | RtSym::BufferI32
            | RtSym::BufferGetI32
            | RtSym::BufferFreezeI32
            | RtSym::RandInt
            | RtSym::TensorNdim
            | RtSym::TensorDim
            | RtSym::KernelDispatchV2 => Some(ClTy::I64),
            RtSym::TensorPrint
            | RtSym::TensorFree
            | RtSym::GpuBarrier
            | RtSym::PrintCstr
            | RtSym::PrintF32
            | RtSym::PrintI64
            | RtSym::PrintBool
            | RtSym::TensorRetain
            | RtSym::TensorRelease
            | RtSym::HeapFree
            | RtSym::AggregateRetain
            | RtSym::AggregateRelease
            | RtSym::TapeRecordBinop
            | RtSym::TapeRecordUnary
            | RtSym::TapeRegisterLeaf
            | RtSym::Backward
            | RtSym::TapeClear
            | RtSym::TapePause
            | RtSym::TapeResume
            | RtSym::TapeZeroGrad
            | RtSym::TapeRecordReduce
            | RtSym::TapeRecordPerm
            | RtSym::TapeRecordLayernorm
            | RtSym::TapeRecordCrossEntropy
            | RtSym::TapeRecordEmbedding
            | RtSym::PrintStr
            | RtSym::RecordDiff
            | RtSym::BufferSetI32
            | RtSym::BufferFree => None,
            RtSym::Powf
            | RtSym::RandUniform
            | RtSym::TensorGetF32 => Some(ClTy::F32),
        }
    }
}

/// Tensor allocation, release, dispatch and queries.
pub open spec fn tensor_symbols() -> Seq<RtSym> {
    seq![
        RtSym::TensorAllocGpu,
        RtSym::TensorPrint,
        RtSym::TensorFree,
        RtSym::KernelDispatch,
        RtSym::GpuBarrier,
        RtSym::TensorAllocZerosGpu,
        RtSym::TensorAllocOnesGpu,
        RtSym::TensorMatmul,
        RtSym::TensorLen,
    ]
}

/// Printing, reference counting and heap boxes.
pub open spec fn host_symbols() -> Seq<RtSym> {
    seq![
        RtSym::PrintCstr,
        RtSym::PrintF32,
        RtSym::PrintI64,
        RtSym::PrintBool,
        RtSym::TensorRetain,
        RtSym::TensorRelease,
        RtSym::Malloc,
        RtSym::HeapFree,
        RtSym::AggregateAlloc,
        RtSym::AggregateRetain,
        RtSym::AggregateRelease,
        RtSym::ListRelease,
    ]
}

/// Gradient recording.
pub open spec fn tape_symbols() -> Seq<RtSym> {
    seq![
        RtSym::TapeRecordBinop,
        RtSym::TapeRecordUnary,
        RtSym::TapeRegisterLeaf,
        RtSym::Backward,
        RtSym::TapeClear,
        RtSym::TapePause,
        RtSym::TapeResume,
        RtSym::TapeGetGrad,
        RtSym::TapeZeroGrad,
        RtSym::TapeRecordReduce,
    ]
}

/// Shape operations and their recording, masks, random tensors, powers.
pub open spec fn shape_symbols() -> Seq<RtSym> {
    seq![
        RtSym::TensorReshape,
        RtSym::TensorPermute,
        RtSym::TapeRecordPerm,
        RtSym::TensorCausalMask,
        RtSym::TapeRecordLayernorm,
        RtSym::TapeRecordCrossEntropy,
        RtSym::TensorRandn,
        RtSym::TapeRecordEmbedding,
        RtSym::Powf,
    ]
}

/// Strings, random numbers and difference recording.
pub open spec fn text_symbols() -> Seq<RtSym> {
    seq![
        RtSym::StrBox,
        RtSym::ReadFile,
        RtSym::StrLen,
        RtSym::StrCharAt,
        RtSym::StrFromChar,
        RtSym::PrintStr,
        RtSym::RandUniform,
        RtSym::RecordDiff,
    ]
}

/// Staging buffers, element reads, metadata and explicit launches.
pub open spec fn buffer_symbols() -> Seq<RtSym> {
    seq![
        RtSym::BufferI32,
        RtSym::BufferGetI32,
        RtSym::BufferSetI32,
        RtSym::BufferFree,
        RtSym::BufferFreezeI32,
        RtSym::RandInt,
        RtSym::TensorGetF32,
        RtSym::TensorNdim,
        RtSym::TensorDim,
        RtSym::KernelDispatchV2,
    ]
}

/// Every runtime function, in declaration order.
pub open spec fn all_symbols() -> Seq<RtSym> {
    tensor_symbols() + host_symbols() + tape_symbols() + shape_symbols() + text_symbols() + buffer_symbols()
}

fn list_tensor_symbols() -> (r: Vec<RtSym>)
    ensures
        r@ == tensor_symbols(),
{
    let mut out: Vec<RtSym> = Vec::new();
    out.push(RtSym::TensorAllocGpu);
    out.push(RtSym::TensorPrint);
    out.push(RtSym::TensorFree);
    out.push(RtSym::KernelDispatch);
    out.push(RtSym::GpuBarrier);
    out.push(RtSym::TensorAllocZerosGpu);
    out.push(RtSym::TensorAllocOnesGpu);
    out.push(RtSym::TensorMatmul);
    out.push(RtSym::TensorLen);
    out
}

fn list_host_symbols() -> (r: Vec<RtSym>)
    ensures
        r@ == host_symbols(),
{
    let mut out: Vec<RtSym> = Vec::new();
    out.push(RtSym::PrintCstr);
    out.push(RtSym::PrintF32);
    out.push(RtSym::PrintI64);
    out.push(RtSym::PrintBool);
    out.push(RtSym::TensorRetain);
    out.push(RtSym::TensorRelease);
    out.push(RtSym::Malloc);
    out.push(RtSym::HeapFree);
    out.push(RtSym::AggregateAlloc);
    out.push(RtSym::AggregateRetain);
    out.push(RtSym::AggregateRelease);
    out.push(RtSym::ListRelease);
    out
}

fn list_tape_symbols() -> (r: Vec<RtSym>)
    ensures
        r@ == tape_symbols(),
{
    let mut out: Vec<RtSym> = Vec::new();
    out.push(RtSym::TapeRecordBinop);
    out.push(RtSym::TapeRecordUnary);
    out.push(RtSym::TapeRegisterLeaf);
    out.push(RtSym::Backward);
    out.push(RtSym::TapeClear);
    out.push(RtSym::TapePause);
    out.push(RtSym::TapeResume);
    out.push(RtSym::TapeGetGrad);
    out.push(RtSym::TapeZeroGrad);
    out.push(RtSym::TapeRecordReduce);
    out
}

fn list_shape_symbols() -> (r: Vec<RtSym>)
    ensures
        r@ == shape_symbols(),
{
    let mut out: Vec<RtSym> = Vec::new();
    out.push(RtSym::TensorReshape);
    out.push(RtSym::TensorPermute);
    out.push(RtSym::TapeRecordPerm);
    out.push(RtSym::TensorCausalMask);
    out.push(RtSym::TapeRecordLayernorm);
    out.push(RtSym::TapeRecordCrossEntropy);
    out.push(RtSym::TensorRandn);
    out.push(RtSym::TapeRecordEmbedding);
    out.push(RtSym::Powf);
    out
}

fn list_text_symbols() -> (r: Vec<RtSym>)
    ensures
        r@ == text_symbols(),
{
    let mut out: Vec<RtSym> = Vec::new();
    out.push(RtSym::StrBox);
    out.push(RtSym::ReadFile);
    out.push(RtSym::StrLen);
    out.push(RtSym::StrCharAt);
    out.push(RtSym::StrFromChar);
    out.push(RtSym::PrintStr);
    out.push(RtSym::RandUniform);
    out.push(RtSym::RecordDiff);
    out
}

fn list_buffer_symbols() -> (r: Vec<RtSym>)
    ensures
        r@ == buffer_symbols(),
{
    let mut out: Vec<RtSym> = Vec::new();
    out.push(RtSym::BufferI32);
    out.push(RtSym::BufferGetI32);
    out.push(RtSym::BufferSetI32);
    out.push(RtSym::BufferFree);
    out.push(RtSym::BufferFreezeI32);
    out.push(RtSym::RandInt);
    out.push(RtSym::TensorGetF32);
    out.push(RtSym::TensorNdim);
    out.push(RtSym::TensorDim);
    out.push(RtSym::KernelDispatchV2);
    out
}

/// Lists the runtime functions that a back end has to declare.
pub fn runtime_symbols() -> (r: Vec<RtSym>)
    ensures
        r@ == all_symbols(),
{
    let mut out: Vec<RtSym> = list_tensor_symbols();
    let mut host_symbols = list_host_symbols();
    out.append(&mut host_symbols);
    let mut tape_symbols = list_tape_symbols();
    out.append(&mut tape_symbols);
    let mut shape_symbols = list_shape_symbols();
    out.append(&mut shape_symbols);
    let mut text_symbols = list_text_symbols();
    out.append(&mut text_symbols);
    let mut buffer_symbols = list_buffer_symbols();
    out.append(&mut buffer_symbols);
    out
}

/// Place of a runtime function in the declaration order.
pub open spec fn place(s: RtSym) -> int {
    match s {
        RtSym::TensorAllocGpu => 0,
        RtSym::TensorPrint => 1,
        RtSym::TensorFree => 2,
        RtSym::KernelDispatch => 3,
        RtSym::GpuBarrier => 4,
        RtSym::TensorAllocZerosGpu => 5,
        RtSym::TensorAllocOnesGpu => 6,
        RtSym::TensorMatmul => 7,
        RtSym::TensorLen => 8,
        RtSym::PrintCstr => 9,
        RtSym::PrintF32 => 10,
        RtSym::PrintI64 => 11,
        RtSym::PrintBool => 12,
        RtSym::TensorRetain => 13,
        RtSym::TensorRelease => 14,
        RtSym::Malloc => 15,
        RtSym::HeapFree => 16,
        RtSym::AggregateAlloc => 17,
        RtSym::AggregateRetain => 18,
        RtSym::AggregateRelease => 19,
        RtSym::ListRelease => 20,
        RtSym::TapeRecordBinop => 21,
        RtSym::TapeRecordUnary => 22,
        RtSym::TapeRegisterLeaf => 23,
        RtSym::Backward => 24,
        RtSym::TapeClear => 25,
        RtSym::TapePause => 26,
        RtSym::TapeResume => 27,
        RtSym::TapeGetGrad => 28,
        RtSym::TapeZeroGrad => 29,
        RtSym::TapeRecordReduce => 30,
        RtSym::TensorReshape => 31,
        RtSym::TensorPermute => 32,
        RtSym::TapeRecordPerm => 33,
        RtSym::TensorCausalMask => 34,
        RtSym::TapeRecordLayernorm => 35,
        RtSym::TapeRecordCrossEntropy => 36,
        RtSym::TensorRandn => 37,
        RtSym::TapeRecordEmbedding => 38,
        RtSym::Powf => 39,
        RtSym::StrBox => 40,
        RtSym::ReadFile => 41,
        RtSym::StrLen => 42,
        RtSym::StrCharAt => 43,
        RtSym::StrFromChar => 44,
        RtSym::PrintStr => 45,
        RtSym::RandUniform => 46,
        RtSym::RecordDiff => 47,
        RtSym::BufferI32 => 48,
        RtSym::BufferGetI32 => 49,
        RtSym::BufferSetI32 => 50,
        RtSym::BufferFree => 51,
        RtSym::BufferFreezeI32 => 52,
        RtSym::RandInt => 53,
        RtSym::TensorGetF32 => 54,
        RtSym::TensorNdim => 55,
        RtSym::TensorDim => 56,
        RtSym::KernelDispatchV2 => 57,
    }
}

/// Every runtime function is declared, once.
pub proof fn symbols_are_declared(s: RtSym)
    ensures
        0 <= place(s) < all_symbols().len(),
        all_symbols()[place(s)] == s,
        forall|i: int| 0 <= i < all_symbols().len() && #[trigger] all_symbols()[i] == s ==> i == place(s),
{
    let all = all_symbols();
    assert(all.len() == 58);
    assert forall|i: int| 0 <= i < all.len() implies place(#[trigger] all[i]) == i by {
    }
}

/// The number of parameters is the length of their list.
pub proof fn arity_counts_parameters(s: RtSym)
    ensures
        s.params().len() == s.arity(),
{
}

} // verus!
