//! The instruction list. Every entity (value, block, variable, stack slot) is
//! named by the position of the instruction that introduces it.

use crate::codegen_cpu::symbols::RtSym;
use crate::typed::{ResolvedTy, ScalarTy};
use vstd::prelude::*;

verus! {

/// Machine type of a value. `Ptr` is the address type of the target.
#[derive(Clone, Copy, Debug, PartialEq, Eq, Structural)]
pub enum ClTy {
    I8,
    I16,
    I32,
    I64,
    F32,
    Ptr,
}

#[derive(Clone, Copy, Debug, PartialEq, Eq, Structural)]
pub struct Val(pub usize);

#[derive(Clone, Copy, Debug, PartialEq, Eq, Structural)]
pub struct Blk(pub usize);

#[derive(Clone, Copy, Debug, PartialEq, Eq, Structural)]
pub struct Var(pub usize);

#[derive(Clone, Copy, Debug, PartialEq, Eq, Structural)]
pub struct StackSlot(pub usize);

/// Two-operand arithmetic and bitwise operations.
#[derive(Clone, Copy, Debug, PartialEq, Eq, Structural)]
pub enum Arith {
    Iadd,
    Isub,
    Imul,
    Sdiv,
    Fadd,
    Fsub,
    Fmul,
    Fdiv,
    Band,
    Bor,
    Bxor,
}

/// Signed integer comparison.
#[derive(Clone, Copy, Debug, PartialEq, Eq, Structural)]
pub enum IntCc {
    Equal,
    NotEqual,
    SignedLessThan,
    SignedLessThanOrEqual,
    SignedGreaterThan,
    SignedGreaterThanOrEqual,
}

/// Floating-point comparison.
#[derive(Clone, Copy, Debug, PartialEq, Eq, Structural)]
pub enum FloatCc {
    Equal,
    NotEqual,
    LessThan,
    LessThanOrEqual,
    GreaterThan,
    GreaterThanOrEqual,
}

/// One-operand conversions and negations.
#[derive(Clone, Copy, Debug, PartialEq, Eq, Structural)]
pub enum Convert {
    /// Floating-point negation.
    Fneg,
    /// Integer negation.
    Ineg,
    /// All ones (as an 8-bit integer) when the operand is non-zero, else zero.
    Bmask8,
    /// Sign extension to 64 bits.
    Sextend64,
    /// Truncation to 32 bits.
    Ireduce32,
    /// Signed integer to single precision.
    FcvtFromSint,
}

/// What a call instruction transfers control to.
#[derive(Clone, Copy, Debug, PartialEq, Eq, Structural)]
pub enum Callee {
    Runtime(RtSym),
    /// The function at a position of the program's function list.
    Function { index: usize, ret: Option<ClTy> },
}

#[derive(Clone, Copy, Debug, PartialEq, Eq, Structural)]
pub enum Inst {
    /// Declares a block; the position names it.
    Block,
    /// Makes a block current.
    SwitchTo { target: Blk },
    /// No more jumps to this block will follow.
    Seal { target: Blk },
    /// The function argument at a position of the entry block's parameters.
    Param { index: usize, ty: ClTy },
    /// Declares a mutable variable.
    DeclareVar { ty: ClTy },
    DefVar { var: Var, val: Val },
    UseVar { var: Var },
    Iconst { ty: ClTy, imm: i64 },
    /// A single-precision constant given by its bit pattern.
    F32Const { bits: u32 },
    /// The single-precision constant nearest to an integer.
    F32FromInt { imm: i64 },
    Arith { op: Arith, lhs: Val, rhs: Val },
    /// Adds a constant to an integer.
    IaddImm { val: Val, imm: i64 },
    IntCompare { icc: IntCc, lhs: Val, rhs: Val },
    FloatCompare { fcc: FloatCc, lhs: Val, rhs: Val },
    Convert { conv: Convert, val: Val },
    Load { ty: ClTy, base: Val, offset: i32 },
    Store { val: Val, base: Val, offset: i32 },
    /// Reserves stack space; `align` is the exponent of the alignment.
    Slot { size: u32, align: u8 },
    StackStore { val: Val, slot: StackSlot, offset: i32 },
    StackAddr { slot: StackSlot },
    /// Address of an entry of the function's table of NUL-terminated texts.
    CstrAddr { entry: usize },
    /// Passes one argument to the next call.
    Arg { val: Val },
    /// Calls with the arguments passed since the previous call.
    Call { callee: Callee, argc: usize },
    Brif { cond: Val, then_blk: Blk, else_blk: Blk },
    Jump { target: Blk },
    Return { val: Val },
    ReturnVoid,
    /// Unreachable code.
    Trap,
}

impl ScalarTy {
    /// Machine type of a scalar.
    pub open spec fn machine(self) -> ClTy {
        match self {
            ScalarTy::F32 | ScalarTy::F16 | ScalarTy::Bf16 => ClTy::F32,
            ScalarTy::I8 | ScalarTy::U8 => ClTy::I8,
            ScalarTy::I16 | ScalarTy::U16 => ClTy::I16,
            ScalarTy::I32 | ScalarTy::U32 => ClTy::I32,
            ScalarTy::I64 | ScalarTy::U64 => ClTy::I64,
        }
    }

    /// Tag by which the runtime knows an element type.
    pub open spec fn code(self) -> i32 {
        match self {
            ScalarTy::F32 => 0i32,
            ScalarTy::F16 => 1i32,
            ScalarTy::Bf16 => 2i32,
            ScalarTy::I8 => 3i32,
            ScalarTy::I16 => 4i32,
            ScalarTy::I32 => 5i32,
            ScalarTy::I64 => 6i32,
            ScalarTy::U8 => 7i32,
            ScalarTy::U16 => 8i32,
            ScalarTy::U32 => 9i32,
            ScalarTy::U64 => 10i32,
        }
    }
}

/// Machine type of a scalar.
pub fn scalar_cranelift_type(s: ScalarTy) -> (r: ClTy)
    ensures
        r == s.machine(),
{
    match s {
        ScalarTy::F32 | ScalarTy::F16 | ScalarTy::Bf16 => ClTy::F32,
        ScalarTy::I8 | ScalarTy::U8 => ClTy::I8,
        ScalarTy::I16 | ScalarTy::U16 => ClTy::I16,
        ScalarTy::I32 | ScalarTy::U32 => ClTy::I32,
        ScalarTy::I64 | ScalarTy::U64 => ClTy::I64,
    }
}

impl ResolvedTy {
    /// Machine type of a value of a type; the unit type has no value.
    /// Everything that lives on the heap is a 64-bit handle.
    pub open spec fn machine(self) -> Option<ClTy> {
        match self {
            ResolvedTy::Scalar(s) => Some(s.machine()),
            ResolvedTy::Bool => Some(ClTy::I8),
            ResolvedTy::Unit => None,
            _ => Some(ClTy::I64),
        }
    }
}

/// Machine type of a value of a type, if it has a value.
pub fn cranelift_type(ty: &ResolvedTy) -> (r: Option<ClTy>)
    ensures
        r == ty.machine(),
{
    match ty {
        ResolvedTy::Scalar(s) => Some(scalar_cranelift_type(*s)),
        ResolvedTy::Bool => Some(ClTy::I8),
        ResolvedTy::Unit => None,
        _ => Some(ClTy::I64),
    }
}

/// Tag by which the runtime knows an element type.
pub fn dtype_tag(s: ScalarTy) -> (r: i32)
    ensures
        r == s.code(),
{
    match s {
        ScalarTy::F32 => 0,
        ScalarTy::F16 => 1,
        ScalarTy::Bf16 => 2,
        ScalarTy::I8 => 3,
        ScalarTy::I16 => 4,
        ScalarTy::I32 => 5,
        ScalarTy::I64 => 6,
        ScalarTy::U8 => 7,
        ScalarTy::U16 => 8,
        ScalarTy::U32 => 9,
        ScalarTy::U64 => 10,
    }
}

} // verus!
