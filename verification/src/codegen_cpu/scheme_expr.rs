//! The translation scheme for expressions: for every expression, the
//! instructions it lowers to, or why it cannot be lowered.

use crate::codegen_cpu::builtins;
use crate::codegen_cpu::builtins::{
    Builtin, OPTAG_CROSS_ENTROPY, OPTAG_EMBEDDING, OPTAG_GELU, OPTAG_LAYERNORM, OPTAG_NEG,
    OPTAG_RESHAPE, OPTAG_SOFTMAX, OPTAG_SUM, OPTAG_TRANSPOSE,
};
use crate::codegen_cpu::segments;
use crate::codegen_cpu::segments::Segment;
use crate::codegen_cpu::inst::{Arith, ClTy, Convert, FloatCc, Inst, IntCc, StackSlot, Val};
use crate::codegen_cpu::state;
use crate::codegen_cpu::state::{EnvView, Fail, St};
use crate::codegen_cpu::symbols::RtSym;
use crate::typed::{
    BinOp, Lit, ResolvedTy, ScalarTy, TypedExpr, TypedExprKind, UnaryOp,
};
use vstd::prelude::*;

verus! {

/// What lowering an expression gives: the extended state and the value.
pub type Lowered = Result<(St, Val), Fail>;

pub open spec fn unsupp(msg: Seq<char>) -> Fail {
    Fail::UnsupportedExpr(msg)
}

pub open spec fn missing_arg() -> Fail {
    Fail::UnsupportedExpr("missing argument"@)
}

/// Position of a field in a struct type, counted from `i`.
pub open spec fn field_pos(fields: Seq<(String, ResolvedTy)>, name: Seq<char>, i: nat) -> Option<nat>
    decreases fields.len() - i,
{
    if i >= fields.len() {
        None
    } else if fields[i as int].0@ == name {
        Some(i)
    } else {
        field_pos(fields, name, i + 1)
    }
}

/// Rank of a launch's output: dimensions that are written as a trailing
/// literal zero do not count.
pub open spec fn launch_rank(elements: Seq<TypedExpr>, n: nat) -> nat
    decreases n,
{
    if 1 < n <= elements.len() && elements[n - 1].kind == TypedExprKind::Lit(Lit::Int(0)) {
        launch_rank(elements, (n - 1) as nat)
    } else {
        n
    }
}

/// Element width in bytes of a tensor literal's staging area.
pub open spec fn literal_width(dtype: ScalarTy) -> u32 {
    if dtype is I64 {
        8
    } else {
        4
    }
}

pub open spec fn max_u32(a: u32, b: u32) -> u32 {
    if a >= b {
        a
    } else {
        b
    }
}

/// The segments of the format string that a print call begins with.
pub open spec fn format_of(args: Seq<TypedExpr>) -> Seq<Segment> {
    if args.len() > 0 {
        match args[0].kind {
            TypedExprKind::Lit(Lit::Str(f)) => segments::format_segments(f@),
            _ => Seq::empty(),
        }
    } else {
        Seq::empty()
    }
}

impl St {
    pub open spec fn iconst(self, ty: ClTy, imm: int) -> (St, Val) {
        self.val(Inst::Iconst { ty, imm: imm as i64 })
    }

    pub open spec fn arith(self, op: Arith, lhs: Val, rhs: Val) -> (St, Val) {
        self.val(Inst::Arith { op, lhs, rhs })
    }

    pub open spec fn convert(self, conv: Convert, v: Val) -> (St, Val) {
        self.val(Inst::Convert { conv, val: v })
    }

    pub open spec fn load(self, ty: ClTy, base: Val, offset: i32) -> (St, Val) {
        self.val(Inst::Load { ty, base, offset })
    }

    pub open spec fn store(self, v: Val, base: Val, offset: i32) -> St {
        self.emit(Inst::Store { val: v, base, offset })
    }

    pub open spec fn stack_store(self, v: Val, s: StackSlot, offset: i32) -> St {
        self.emit(Inst::StackStore { val: v, slot: s, offset })
    }

    pub open spec fn stack_addr(self, s: StackSlot) -> (St, Val) {
        self.val(Inst::StackAddr { slot: s })
    }

    /// Literals: numbers take the machine type of their resolved type, strings
    /// become a runtime string box over static text.
    pub open spec fn lit(self, l: Lit, ty: ResolvedTy) -> (St, Val) {
        let st = self;
        match l {
            Lit::Int(n) => match ty {
                ResolvedTy::Scalar(s) => if s.is_float() {
                    st.val(Inst::F32FromInt { imm: n })
                } else {
                    st.iconst(s.machine(), n as int)
                },
                _ => st.val(Inst::F32FromInt { imm: n }),
            },
            Lit::Float(f) => st.val(Inst::F32Const { bits: f.bits }),
            Lit::Bool(b) => st.iconst(ClTy::I8, if b {
                    1
                } else {
                    0
                }),
            Lit::Str(s) => {
                let (st, data) = st.static_cstr(s@);
                let (st, len) = st.val(Inst::Iconst {
                        ty: ClTy::I64,
                        imm: (vstd::utf8::encode_utf8(s@).len() as usize) as i64,
                    },
                );
                st.rt(RtSym::StrBox, seq![data, len])
            },
        }
    }

    /// Scalar comparison followed by widening the flag to a full mask.
    pub open spec fn compare(self, float: bool, fcc: FloatCc, icc: IntCc, l: Val, r: Val) -> (
        St,
        Val,
    ) {
        let st = self;
        let (st, flag) = if float {
            st.val(Inst::FloatCompare { fcc, lhs: l, rhs: r })
        } else {
            st.val(Inst::IntCompare { icc, lhs: l, rhs: r })
        };
        st.convert(Convert::Bmask8, flag)
    }

    /// Operators on two scalars of the left operand's type.
    pub open spec fn scalar_binop(self, op: BinOp, l: Val, r: Val, s: ScalarTy) -> Lowered {
        let st = self;
        let f = s.is_float();
        match op {
            BinOp::Add => Ok(
                st.arith(if f {
                        Arith::Fadd
                    } else {
                        Arith::Iadd
                    },
                    l,
                    r,
                ),
            ),
            BinOp::Sub => Ok(
                st.arith(if f {
                        Arith::Fsub
                    } else {
                        Arith::Isub
                    },
                    l,
                    r,
                ),
            ),
            BinOp::Mul => Ok(
                st.arith(if f {
                        Arith::Fmul
                    } else {
                        Arith::Imul
                    },
                    l,
                    r,
                ),
            ),
            BinOp::Div => Ok(
                st.arith(if f {
                        Arith::Fdiv
                    } else {
                        Arith::Sdiv
                    },
                    l,
                    r,
                ),
            ),
            BinOp::Eq => Ok(st.compare(f, FloatCc::Equal, IntCc::Equal, l, r)),
            BinOp::NotEq => Ok(st.compare(f, FloatCc::NotEqual, IntCc::NotEqual, l, r)),
            BinOp::Lt => Ok(st.compare(f, FloatCc::LessThan, IntCc::SignedLessThan, l, r)),
            BinOp::LtEq => Ok(
                st.compare(f, FloatCc::LessThanOrEqual, IntCc::SignedLessThanOrEqual, l, r),
            ),
            BinOp::Gt => Ok(st.compare(f, FloatCc::GreaterThan, IntCc::SignedGreaterThan, l, r)),
            BinOp::GtEq => Ok(
                st.compare(f, FloatCc::GreaterThanOrEqual, IntCc::SignedGreaterThanOrEqual, l, r),
            ),
            BinOp::Pow => {
                let (st, exp) = if st.val_ty(r) == Some(ClTy::F32) {
                    (st, r)
                } else {
                    st.convert(Convert::FcvtFromSint, r)
                };
                Ok(st.rt(RtSym::Powf, seq![l, exp]))
            },
            BinOp::Matmul => Err(unsupp("Matmul requires tensor operands"@)),
            BinOp::And | BinOp::Or => Err(unsupp("And/Or on scalars not supported"@)),
        }
    }

    /// Operators on two booleans.
    pub open spec fn bool_binop(self, op: BinOp, l: Val, r: Val) -> Lowered {
        match op {
            BinOp::And => Ok(self.arith(Arith::Band, l, r)),
            BinOp::Or => Ok(self.arith(Arith::Bor, l, r)),
            BinOp::Eq => Ok(self.compare(false, FloatCc::Equal, IntCc::Equal, l, r)),
            BinOp::NotEq => Ok(self.compare(false, FloatCc::NotEqual, IntCc::NotEqual, l, r)),
            _ => Err(unsupp("BinOp "@ + op.text() + " on bool not supported"@)),
        }
    }

    /// Allocates a one-element tensor that holds a single-precision value.
    pub open spec fn scalar_tensor(self, f: Val) -> (St, Val) {
        let st = self;
        let (st, data_slot) = st.slot(4, 2);
        let st = st.stack_store(f, data_slot, 0);
        let (st, shape_slot) = st.slot(8, 3);
        let (st, one) = st.iconst(ClTy::I64, 1);
        let st = st.stack_store(one, shape_slot, 0);
        let (st, data) = st.stack_addr(data_slot);
        let (st, shape) = st.stack_addr(shape_slot);
        let (st, dtype) = st.iconst(ClTy::I32, 0);
        let (st, ndims) = st.iconst(ClTy::Ptr, 1);
        st.rt(RtSym::TensorAllocGpu, seq![dtype, shape, ndims, data])
    }

    /// Calls a kernel on handles that have been computed already.
    pub open spec fn dispatch_handles(self, env: EnvView, name: Seq<char>, handles: Seq<Val>) -> Lowered {
        let st = self;
        if !env.kernels.contains_key(name) {
            Err(Fail::UnknownKernel(name))
        } else {
            let (st, s) = st.slot(state::stack_size(8, handles.len()), 3);
            let st = st.spill_handles(s, handles, 0);
            Ok(st.dispatch_slot(env.kernels[name], s, handles.len()))
        }
    }

    /// Stores handles into a stack slot from position `i` on.
    pub open spec fn spill_handles(self, s: StackSlot, handles: Seq<Val>, i: nat) -> St
        decreases handles.len() - i,
    {
        if i >= handles.len() {
            self
        } else {
            self.stack_store(handles[i as int], s, state::slot_offset(0, i)).spill_handles(s, handles, i + 1)
        }
    }

    /// Calls a kernel on `n` handles that a stack slot holds.
    pub open spec fn dispatch_slot(self, id: u64, s: StackSlot, n: nat) -> (St, Val) {
        let st = self;
        let (st, id_val) = st.val(Inst::Iconst { ty: ClTy::I64, imm: id as i64 });
        let (st, handles) = st.stack_addr(s);
        let (st, count) = st.iconst(ClTy::Ptr, n as int);
        st.rt(RtSym::KernelDispatch, seq![id_val, handles, count])
    }

    /// Calls a library function by name.
    pub open spec fn fwd_call(self, env: EnvView, name: Seq<char>, args: Seq<Val>) -> Lowered {
        if env.fns.contains_key(name) {
            Ok(self.call(env.fns[name].callee(), args))
        } else {
            Err(unsupp("stdlib "@ + name + " not found"@))
        }
    }

    pub open spec fn record_unary(self, tag: i32, x: Val, out: Val) -> St {
        let st = self;
        let (st, t) = st.iconst(ClTy::I32, tag as int);
        st.rt(RtSym::TapeRecordUnary, seq![t, x, out]).0
    }

    pub open spec fn record_binop(self, tag: i32, a: Val, b: Val, out: Val) -> St {
        let st = self;
        let (st, t) = st.iconst(ClTy::I32, tag as int);
        st.rt(RtSym::TapeRecordBinop, seq![t, a, b, out]).0
    }

    pub open spec fn record_five(self, sym: RtSym, tag: i32, a: Val, b: Val, c: Val, d: Val) -> St {
        let st = self;
        let (st, t) = st.iconst(ClTy::I32, tag as int);
        st.rt(sym, seq![t, a, b, c, d]).0
    }

    /// Prints a static text.
    pub open spec fn print_text(self, text: Seq<char>) -> St {
        let st = self;
        let (st, p) = st.static_cstr(text);
        st.rt(RtSym::PrintCstr, seq![p]).0
    }

    /// Prints a computed value according to its type.
    pub open spec fn print_typed(self, v: Val, ty: ResolvedTy) -> Result<St, Fail> {
        let st = self;
        match ty {
            ResolvedTy::Tensor { dtype } => Ok(st.rt(RtSym::TensorPrint, seq![v]).0),
            ResolvedTy::Scalar(s) => if s.is_float() {
                Ok(st.rt(RtSym::PrintF32, seq![v]).0)
            } else {
                let (st, wide) = if s.machine() == ClTy::I64 {
                    (st, v)
                } else {
                    st.convert(Convert::Sextend64, v)
                };
                Ok(st.rt(RtSym::PrintI64, seq![wide]).0)
            },
            ResolvedTy::Bool => Ok(st.rt(RtSym::PrintBool, seq![v]).0),
            ResolvedTy::Str => Ok(st.rt(RtSym::PrintStr, seq![v]).0),
            _ => Err(unsupp("print of "@ + ty.text() + " not supported"@)),
        }
    }

    /// Address of slot `index` of a row of eight-byte slots behind `base` bytes.
    pub open spec fn slot_addr(self, ptr: Val, index: Val, base: i64) -> (St, Val) {
        let st = self;
        let (st, eight) = st.iconst(ClTy::I64, 8);
        let (st, off) = st.arith(Arith::Imul, index, eight);
        if base == 0 {
            st.arith(Arith::Iadd, ptr, off)
        } else {
            let (st, off) = st.val(Inst::IaddImm { val: off, imm: base });
            st.arith(Arith::Iadd, ptr, off)
        }
    }

    /// Allocates a reference-counted box of `size` bytes.
    pub open spec fn alloc_box(self, size: i64) -> (St, Val) {
        let st = self;
        let (st, n) = st.val(Inst::Iconst { ty: ClTy::I64, imm: size });
        st.rt(RtSym::AggregateAlloc, seq![n])
    }

    /// Copies the three dimensions of an `i64` array into a stack slot.
    pub open spec fn copy_dims(self, arr: Val, s: StackSlot, dim: nat) -> St
        decreases 3 - dim,
    {
        let st = self;
        if dim >= 3 {
            st
        } else {
            let (st, off) = st.iconst(ClTy::Ptr, (8 * dim) as int);
            let (st, src) = st.arith(Arith::Iadd, arr, off);
            let (st, v) = st.load(ClTy::I64, src, 0);
            st.stack_store(v, s, state::slot_offset(0, dim)).copy_dims(arr, s, dim + 1)
        }
    }

    /// Stores constant dimensions into a stack slot from position `i` on.
    pub open spec fn store_dims(self, dims: Seq<usize>, s: StackSlot, i: nat) -> St
        decreases dims.len() - i,
    {
        let st = self;
        if i >= dims.len() {
            st
        } else {
            let (st, d) = st.val(Inst::Iconst { ty: ClTy::I64, imm: dims[i as int] as i64 });
            st.stack_store(d, s, state::slot_offset(0, i)).store_dims(dims, s, i + 1)
        }
    }

    /// An expression.
    pub open spec fn expr(self, env: EnvView, e: TypedExpr) -> Lowered
        decreases e, 3nat,
    {
        let st = self;
        match e.kind {
            TypedExprKind::Lit(l) => Ok(st.lit(l, e.ty)),
            TypedExprKind::Ident(name) => st.use_var(name@),
            TypedExprKind::BinOp { op, lhs, rhs } => st.binop(env, e),
            TypedExprKind::Unary { op, operand } => st.unary(env, op, *operand),
            TypedExprKind::Call { callee, args } => st.call_expr(env, callee@,
                args@,
                e.grad_tracked,
            ),
            TypedExprKind::KernelCall { callee, args } => st.kernel_dispatch(env, callee@, args@),
            TypedExprKind::TensorLiteral { dtype, elements, shape } => st.tensor_literal(env, dtype,
                elements@,
                shape@,
            ),
            TypedExprKind::Index { base, indices } => st.index_expr(env, e),
            TypedExprKind::ArrayLiteral { elements } => st.array_literal(env, elements@,
                e.ty is List,
            ),
            TypedExprKind::FieldAccess { base, field } => st.field_access(env, *base, field@, e.ty),
            TypedExprKind::StructInit { name, fields } => st.boxed(env, fields@),
            TypedExprKind::EnumInit { variant_index, payload, max_payload_slots } => st.enum_init(env, variant_index,
                payload@,
                max_payload_slots as nat,
            ),
            TypedExprKind::TupleInit { elements } => st.boxed(env, elements@),
            TypedExprKind::TupleIndex { base, index } => match st.expr(env, *base) {
                Err(x) => Err(x),
                Ok((st, ptr)) => match e.ty.machine() {
                    None => Err(unsupp("tuple index has unit type"@)),
                    Some(t) => Ok(st.load(t, ptr, state::slot_offset(8, index as nat))),
                },
            },
            TypedExprKind::KernelLaunch { kernel, grid, tg, out_shape, tensor_args, scalar_args } =>
                st.kernel_launch(env, e),
        }
    }

    /// Lowers the arguments from position `i` up to `n`, appending to `vs`.
    pub open spec fn list(self, env: EnvView, args: Seq<TypedExpr>,
        i: nat,
        n: nat,
        vs: Seq<Val>,
    ) -> Result<(St, Seq<Val>), Fail>
        decreases args, n - i,
    {
        let st = self;
        if i >= n {
            Ok((st, vs))
        } else if i >= args.len() {
            Err(missing_arg())
        } else {
            match st.expr(env, args[i as int]) {
                Err(x) => Err(x),
                Ok((st, v)) => st.list(env, args, i + 1, n, vs.push(v)),
            }
        }
    }

    /// Lowers the arguments from position `i` on and stores each into a stack
    /// slot of eight-byte entries.
    pub open spec fn spill(self, env: EnvView, args: Seq<TypedExpr>, from: nat, i: nat, s: StackSlot) -> Result<St, Fail>
        decreases args, args.len() - i,
    {
        let st = self;
        if i >= args.len() {
            Ok(st)
        } else {
            match st.expr(env, args[i as int]) {
                Err(x) => Err(x),
                Ok((st, v)) => st.stack_store(
                    v,
                    s,
                    state::slot_offset(0, (i - from) as nat),
                ).spill(env, args, from, i + 1, s),
            }
        }
    }

    /// Lowers the members from position `i` on and stores each into its slot of a
    /// box with a header of `base` bytes.
    pub open spec fn fill(self, env: EnvView, members: Seq<TypedExpr>, i: nat, ptr: Val, base: i32) -> Result<St, Fail>
        decreases members, members.len() - i,
    {
        let st = self;
        if i >= members.len() {
            Ok(st)
        } else {
            match st.expr(env, members[i as int]) {
                Err(x) => Err(x),
                Ok((st, v)) => st.store(v, ptr, state::slot_offset(base, i)).fill(
                    env,
                    members,
                    i + 1,
                    ptr,
                    base,
                ),
            }
        }
    }

    /// A struct or tuple: a counted box with one slot per member.
    pub open spec fn boxed(self, env: EnvView, members: Seq<TypedExpr>) -> Lowered
        decreases members, members.len() + 1,
    {
        let st = self;
        let (st, ptr) = st.alloc_box(state::box_size(8, members.len()));
        match st.fill(env, members, 0, ptr, 8) {
            Err(x) => Err(x),
            Ok(st) => Ok((st, ptr)),
        }
    }

    /// An enum value: a counted box with the tag and the payload slots.
    pub open spec fn enum_init(self, env: EnvView, tag: u32, payload: Seq<TypedExpr>, max_slots: nat) -> Lowered
        decreases payload, payload.len() + 1,
    {
        let st = self;
        let (st, ptr) = st.alloc_box(state::box_size(16, max_slots));
        let (st, t) = st.iconst(ClTy::I32, tag as int);
        let st = st.store(t, ptr, 8);
        match st.fill(env, payload, 0, ptr, 16) {
            Err(x) => Err(x),
            Ok(st) => Ok((st, ptr)),
        }
    }

    /// A list is a counted box with its length in front of the elements; an array
    /// is a plain row of elements.
    pub open spec fn array_literal(self, env: EnvView, elements: Seq<TypedExpr>, is_list: bool) -> Lowered
        decreases elements, elements.len() + 1,
    {
        let st = self;
        if is_list {
            let (st, ptr) = st.alloc_box(state::box_size(16, elements.len()));
            let (st, n) = st.val(Inst::Iconst { ty: ClTy::I64, imm: (elements.len() as usize) as i64 },
            );
            let st = st.store(n, ptr, 8);
            match st.fill(env, elements, 0, ptr, 16) {
                Err(x) => Err(x),
                Ok(st) => Ok((st, ptr)),
            }
        } else {
            let (st, size) = st.val(Inst::Iconst { ty: ClTy::Ptr, imm: state::box_size(0, elements.len()) },
            );
            let (st, ptr) = st.rt(RtSym::Malloc, seq![size]);
            match st.fill(env, elements, 0, ptr, 0) {
                Err(x) => Err(x),
                Ok(st) => Ok((st, ptr)),
            }
        }
    }

    /// Elements of a tensor literal from position `i` on, each stored into the
    /// staging area; integers become floating point where the tensor is.
    pub open spec fn literal_elements(self, env: EnvView, dtype: ScalarTy,
        elements: Seq<TypedExpr>,
        i: nat,
        s: StackSlot,
    ) -> Result<St, Fail>
        decreases elements, elements.len() - i,
    {
        let st = self;
        if i >= elements.len() {
            Ok(st)
        } else {
            match st.expr(env, elements[i as int]) {
                Err(x) => Err(x),
                Ok((st, v)) => {
                    let (st, stored) = st.literal_element(dtype, v, elements[i as int].ty);
                    st.stack_store(stored, s, (literal_width(dtype) * i) as i32).literal_elements(
                        env,
                        dtype,
                        elements,
                        i + 1,
                        s,
                    )
                },
            }
        }
    }

    pub open spec fn literal_element(self, dtype: ScalarTy, v: Val, ty: ResolvedTy) -> (St, Val) {
        let st = self;
        if dtype is I32 || dtype is I64 {
            (st, v)
        } else {
            match ty {
                ResolvedTy::Scalar(s) => if s.is_float() {
                    (st, v)
                } else {
                    st.convert(Convert::FcvtFromSint, v)
                },
                _ => (st, v),
            }
        }
    }

    /// A tensor literal: stage the elements and the shape, then allocate.
    pub open spec fn tensor_literal(self, env: EnvView, dtype: ScalarTy,
        elements: Seq<TypedExpr>,
        shape: Seq<usize>,
    ) -> Lowered
        decreases elements, elements.len() + 1,
    {
        let st = self;
        let w = literal_width(dtype);
        let (st, data_slot) = st.slot(max_u32(state::stack_size(w as nat, elements.len()), w),
            if w == 8 {
                3
            } else {
                2
            },
        );
        match st.literal_elements(env, dtype, elements, 0, data_slot) {
            Err(x) => Err(x),
            Ok(st) => {
                let (st, shape_slot) = st.slot(max_u32(state::stack_size(8, shape.len()), 8), 3);
                let st = st.store_dims(shape, shape_slot, 0);
                let (st, data) = st.stack_addr(data_slot);
                let (st, dims) = st.stack_addr(shape_slot);
                let (st, tag) = st.iconst(ClTy::I32, dtype.code() as int);
                let (st, ndims) = st.val(Inst::Iconst { ty: ClTy::Ptr, imm: (shape.len() as usize) as i64 },
                );
                Ok(st.rt(RtSym::TensorAllocGpu, seq![tag, dims, ndims, data]))
            },
        }
    }

    /// A kernel call that maps over its tensor arguments.
    pub open spec fn kernel_dispatch(self, env: EnvView, name: Seq<char>, args: Seq<TypedExpr>) -> Lowered
        decreases args, args.len() + 1,
    {
        let st = self;
        if !env.kernels.contains_key(name) {
            Err(Fail::UnknownKernel(name))
        } else {
            let (st, s) = st.slot(state::stack_size(8, args.len()), 3);
            match st.spill(env, args, 0, 0, s) {
                Err(x) => Err(x),
                Ok(st) => Ok(st.dispatch_slot(env.kernels[name], s, args.len())),
            }
        }
    }

    /// A scalar operand of a tensor operator, as a one-element tensor.
    pub open spec fn materialize(self, env: EnvView, e: TypedExpr) -> Lowered
        decreases e, 4nat,
    {
        let st = self;
        match st.expr(env, e) {
            Err(x) => Err(x),
            Ok((st, v)) => match e.ty {
                ResolvedTy::Scalar(s) => {
                    let (st, f) = if s.is_float() {
                        (st, v)
                    } else {
                        let (st, wide) = if s.machine() == ClTy::I64 {
                            (st, v)
                        } else {
                            st.convert(Convert::Sextend64, v)
                        };
                        st.convert(Convert::FcvtFromSint, wide)
                    };
                    Ok(st.scalar_tensor(f))
                },
                _ => Err(unsupp("non-scalar in materialize_scalar_tensor"@)),
            },
        }
    }

    /// A tensor operator with one scalar operand: the scalar travels as a
    /// one-element tensor that is freed after the dispatch.
    pub open spec fn scalar_broadcast(self, env: EnvView, e: TypedExpr, scalar_on_right: bool) -> Lowered
        decreases e, 1nat,
    {
        let st = self;
        match e.kind {
            TypedExprKind::BinOp { op, lhs, rhs } => match op.scalar_broadcast_kernel(scalar_on_right) {
                None => Err(
                    unsupp(
                        "scalar broadcast "@ + op.text() + (if scalar_on_right {
                            " not supported"@
                        } else {
                            " (reversed) not supported"@
                        }),
                    ),
                ),
                Some(name) => {
                    let tensor = if scalar_on_right {
                        *lhs
                    } else {
                        *rhs
                    };
                    let scalar = if scalar_on_right {
                        *rhs
                    } else {
                        *lhs
                    };
                    match st.expr(env, tensor) {
                        Err(x) => Err(x),
                        Ok((st, t)) => match st.materialize(env, scalar) {
                            Err(x) => Err(x),
                            Ok((st, s)) => match st.dispatch_handles(env, name, seq![t, s]) {
                                Err(x) => Err(x),
                                Ok((st, out)) => Ok((st.rt(RtSym::TensorFree, seq![s]).0, out)),
                            },
                        },
                    }
                },
            },
            _ => Err(unsupp(""@)),
        }
    }

    /// An operator on two tensors of single precision, recorded when its result
    /// takes part in gradients.
    pub open spec fn tensor_binop(self, env: EnvView, e: TypedExpr) -> Lowered
        decreases e, 1nat,
    {
        let st = self;
        match e.kind {
            TypedExprKind::BinOp { op, lhs, rhs } => match st.expr(env, *lhs) {
                Err(x) => Err(x),
                Ok((st, a)) => match st.expr(env, *rhs) {
                    Err(x) => Err(x),
                    Ok((st, b)) => {
                        let lowered = if op is Matmul {
                            Ok(st.rt(RtSym::TensorMatmul, seq![a, b]))
                        } else {
                            match op.broadcast_fwd() {
                                Some(name) => st.fwd_call(env, name, seq![a, b]),
                                None => Err(
                                    unsupp("binop "@ + op.text() + " on tensors not supported"@),
                                ),
                            }
                        };
                        match lowered {
                            Err(x) => Err(x),
                            Ok((st, out)) => if e.grad_tracked {
                                match op.optag() {
                                    Some(tag) => Ok((st.record_binop(tag, a, b, out), out)),
                                    None => Err(
                                        unsupp("BinOp "@ + op.text() + " not supported on tape"@),
                                    ),
                                }
                            } else {
                                Ok((st, out))
                            },
                        }
                    },
                },
            },
            _ => Err(unsupp(""@)),
        }
    }

    /// A binary operator: what it does follows from the operand types.
    pub open spec fn binop(self, env: EnvView, e: TypedExpr) -> Lowered
        decreases e, 2nat,
    {
        let st = self;
        match e.kind {
            TypedExprKind::BinOp { op, lhs, rhs } => {
                let f32_tensor = ResolvedTy::Tensor { dtype: ScalarTy::F32 };
                let f32_scalar = ResolvedTy::Scalar(ScalarTy::F32);
                if lhs.ty is Tensor && rhs.ty is Tensor {
                    if lhs.ty == f32_tensor && rhs.ty == f32_tensor {
                        st.tensor_binop(env, e)
                    } else {
                        Err(unsupp("non-f32 tensor BinOp not yet supported"@))
                    }
                } else if lhs.ty == f32_tensor && rhs.ty == f32_scalar {
                    st.scalar_broadcast(env, e, true)
                } else if lhs.ty == f32_scalar && rhs.ty == f32_tensor {
                    st.scalar_broadcast(env, e, false)
                } else {
                    match lhs.ty {
                        ResolvedTy::Scalar(s) => match st.expr(env, *lhs) {
                            Err(x) => Err(x),
                            Ok((st, l)) => match st.expr(env, *rhs) {
                                Err(x) => Err(x),
                                Ok((st, r)) => st.scalar_binop(op, l, r, s),
                            },
                        },
                        ResolvedTy::Bool => match st.expr(env, *lhs) {
                            Err(x) => Err(x),
                            Ok((st, l)) => match st.expr(env, *rhs) {
                                Err(x) => Err(x),
                                Ok((st, r)) => st.bool_binop(op, l, r),
                            },
                        },
                        _ => Err(unsupp("BinOp on "@ + lhs.ty.text())),
                    }
                }
            },
            _ => Err(unsupp(""@)),
        }
    }

    /// Negation, and complement of the lowest bit. Negating a tensor multiplies
    /// it by minus one. The complement of a literal is its logical complement;
    /// a comparison that holds is all ones, and its complement, with only the
    /// lowest bit cleared, still counts as true.
    pub open spec fn unary(self, env: EnvView, op: UnaryOp, operand: TypedExpr) -> Lowered
        decreases operand, 4nat,
    {
        let st = self;
        match st.expr(env, operand) {
            Err(x) => Err(x),
            Ok((st, v)) => match op {
                UnaryOp::Neg => if operand.ty is Tensor {
                    let (st, minus_one) = st.val(Inst::F32Const { bits: 0xbf80_0000 });
                    let (st, s) = st.scalar_tensor(minus_one);
                    match st.dispatch_handles(env, "malus_mul_scalar"@, seq![v, s]) {
                        Err(x) => Err(x),
                        Ok((st, out)) => {
                            let st = st.rt(RtSym::TensorFree, seq![s]).0;
                            if operand.grad_tracked {
                                Ok((st.record_unary(OPTAG_NEG, v, out), out))
                            } else {
                                Ok((st, out))
                            }
                        },
                    }
                } else {
                    match operand.ty {
                        ResolvedTy::Scalar(s) => Ok(
                            st.convert(if s.is_float() {
                                    Convert::Fneg
                                } else {
                                    Convert::Ineg
                                },
                                v,
                            ),
                        ),
                        _ => Err(unsupp("Neg on non-scalar"@)),
                    }
                },
                UnaryOp::Not => {
                    let (st, one) = st.iconst(ClTy::I8, 1);
                    Ok(st.arith(Arith::Bxor, v, one))
                },
            },
        }
    }

    /// Prints one argument.
    pub open spec fn print_value(self, env: EnvView, arg: TypedExpr) -> Result<St, Fail>
        decreases arg, 4nat,
    {
        let st = self;
        match st.expr(env, arg) {
            Err(x) => Err(x),
            Ok((st, v)) => st.print_typed(v, arg.ty),
        }
    }

    /// Prints the arguments from position `i` on, without separators.
    pub open spec fn print_args(self, env: EnvView, args: Seq<TypedExpr>, i: nat) -> Result<St, Fail>
        decreases args, args.len() - i,
    {
        let st = self;
        if i >= args.len() {
            Ok(st)
        } else {
            match st.print_value(env, args[i as int]) {
                Err(x) => Err(x),
                Ok(st) => st.print_args(env, args, i + 1),
            }
        }
    }

    /// Prints the segments of a format string from position `k` on; placeholders
    /// take the arguments from position `next` on.
    pub open spec fn print_segments(self, env: EnvView, segs: Seq<Segment>,
        k: nat,
        args: Seq<TypedExpr>,
        next: nat,
    ) -> Result<St, Fail>
        decreases args, segs.len() - k,
    {
        let st = self;
        if k >= segs.len() {
            Ok(st)
        } else {
            match segs[k as int] {
                Segment::Literal(text) => st.print_text(text).print_segments(
                    env,
                    segs,
                    k + 1,
                    args,
                    next,
                ),
                Segment::Placeholder => if next >= args.len() {
                    Err(missing_arg())
                } else {
                    match st.print_value(env, args[next as int]) {
                        Err(x) => Err(x),
                        Ok(st) => st.print_segments(env, segs, k + 1, args, next + 1),
                    }
                },
            }
        }
    }

    /// `print` and `println`.
    pub open spec fn print_call(self, env: EnvView, newline: bool, args: Seq<TypedExpr>) -> Lowered
        decreases args, args.len() + format_of(args).len() + 1,
    {
        let st = self;
        let printed = if args.len() > 0 && (args[0].kind matches TypedExprKind::Lit(Lit::Str(_))) {
            st.print_segments(env, format_of(args), 0, args, 1)
        } else {
            st.print_args(env, args, 0)
        };
        match printed {
            Err(x) => Err(x),
            Ok(st) => {
                let st = if newline {
                    st.print_text("\n"@)
                } else {
                    st
                };
                Ok(st.iconst(ClTy::I64, 0))
            },
        }
    }

    /// `zeros`, `ones` and `randn`: a shape on the stack and an allocation.
    pub open spec fn shaped_alloc(self, env: EnvView, sym: RtSym, args: Seq<TypedExpr>) -> Lowered
        decreases args, args.len() + 1,
    {
        let st = self;
        let (st, s) = st.slot(state::stack_size(8, args.len()), 3);
        match st.spill(env, args, 0, 0, s) {
            Err(x) => Err(x),
            Ok(st) => {
                let (st, shape) = st.stack_addr(s);
                let (st, n) = st.iconst(ClTy::Ptr, args.len() as int);
                Ok(st.rt(sym, seq![shape, n]))
            },
        }
    }

    /// A runtime call on the first `n` arguments.
    pub open spec fn rt_args(self, env: EnvView, sym: RtSym, args: Seq<TypedExpr>, n: nat) -> Lowered
        decreases args, n + 1,
    {
        let st = self;
        match st.list(env, args, 0, n, Seq::empty()) {
            Err(x) => Err(x),
            Ok((st, vs)) => Ok(st.rt(sym, vs)),
        }
    }

    /// Whole-tensor sum.
    pub open spec fn sum_all(self, env: EnvView, args: Seq<TypedExpr>, grad: bool) -> Lowered
        decreases args, 5nat,
    {
        let st = self;
        match st.list(env, args, 0, 1, Seq::empty()) {
            Err(x) => Err(x),
            Ok((st, vs)) => match st.fwd_call(env, "__reduce_all_sum_fwd"@, vs) {
                Err(x) => Err(x),
                Ok((st, out)) => Ok(
                    (
                        if grad {
                            st.record_unary(OPTAG_SUM, vs[0], out)
                        } else {
                            st
                        },
                        out,
                    ),
                ),
            },
        }
    }

    /// Reduction along an axis: tensor, axis and whether to keep the dimension.
    pub open spec fn axis_reduction(self, env: EnvView, b: Builtin, args: Seq<TypedExpr>, grad: bool) -> Lowered
        decreases args, 5nat,
    {
        let st = self;
        let (name, tag) = b.axis_fwd();
        match st.list(env, args, 0, 3, Seq::empty()) {
            Err(x) => Err(x),
            Ok((st, vs)) => match st.fwd_call(env, name, vs) {
                Err(x) => Err(x),
                Ok((st, out)) => Ok(
                    (
                        if grad {
                            st.record_five(RtSym::TapeRecordReduce,
                                tag,
                                vs[0],
                                out,
                                vs[1],
                                vs[2],
                            )
                        } else {
                            st
                        },
                        out,
                    ),
                ),
            },
        }
    }

    pub open spec fn softmax(self, env: EnvView, args: Seq<TypedExpr>, grad: bool) -> Lowered
        decreases args, 5nat,
    {
        let st = self;
        match st.list(env, args, 0, 2, Seq::empty()) {
            Err(x) => Err(x),
            Ok((st, vs)) => match st.fwd_call(env, "__softmax_fwd"@, vs) {
                Err(x) => Err(x),
                Ok((st, out)) => if grad {
                    let (st, zero) = st.iconst(ClTy::I64, 0);
                    Ok(
                        (
                            st.record_five(RtSym::TapeRecordReduce,
                                OPTAG_SOFTMAX,
                                vs[0],
                                out,
                                vs[1],
                                zero,
                            ),
                            out,
                        ),
                    )
                } else {
                    Ok((st, out))
                },
            },
        }
    }

    /// Layer normalisation returns a pair; the variance is kept for the gradient.
    pub open spec fn layernorm(self, env: EnvView, args: Seq<TypedExpr>, grad: bool) -> Lowered
        decreases args, 5nat,
    {
        let st = self;
        match st.list(env, args, 0, 2, Seq::empty()) {
            Err(x) => Err(x),
            Ok((st, vs)) => match st.fwd_call(env, "__layernorm_fwd"@, vs) {
                Err(x) => Err(x),
                Ok((st, pair)) => {
                    let (st, normed) = st.load(ClTy::I64, pair, 8);
                    let (st, variance) = st.load(ClTy::I64, pair, 16);
                    let st = st.rt(RtSym::AggregateRelease, seq![pair]).0;
                    Ok(
                        (
                            if grad {
                                st.record_five(RtSym::TapeRecordLayernorm,
                                    OPTAG_LAYERNORM,
                                    vs[0],
                                    normed,
                                    variance,
                                    vs[1],
                                )
                            } else {
                                st
                            },
                            normed,
                        ),
                    )
                },
            },
        }
    }

    pub open spec fn gelu(self, env: EnvView, args: Seq<TypedExpr>, grad: bool) -> Lowered
        decreases args, 5nat,
    {
        let st = self;
        match st.list(env, args, 0, 1, Seq::empty()) {
            Err(x) => Err(x),
            Ok((st, vs)) => match st.fwd_call(env, "__gelu_fwd"@, vs) {
                Err(x) => Err(x),
                Ok((st, out)) => Ok(
                    (
                        if grad {
                            st.record_unary(OPTAG_GELU, vs[0], out)
                        } else {
                            st
                        },
                        out,
                    ),
                ),
            },
        }
    }

    pub open spec fn embedding(self, env: EnvView, args: Seq<TypedExpr>, grad: bool) -> Lowered
        decreases args, 5nat,
    {
        let st = self;
        match st.list(env, args, 0, 2, Seq::empty()) {
            Err(x) => Err(x),
            Ok((st, vs)) => match st.fwd_call(env, "__embedding_fwd"@, vs) {
                Err(x) => Err(x),
                Ok((st, out)) => if grad {
                    let (st, tag) = st.iconst(ClTy::I32, OPTAG_EMBEDDING as int);
                    Ok((st.rt(RtSym::TapeRecordEmbedding, seq![tag, vs[0], vs[1], out]).0, out))
                } else {
                    Ok((st, out))
                },
            },
        }
    }

    /// Cross entropy returns the loss and the probabilities; the latter are kept
    /// for the gradient, or freed where no gradient is recorded.
    pub open spec fn cross_entropy(self, env: EnvView, args: Seq<TypedExpr>, grad: bool) -> Lowered
        decreases args, 5nat,
    {
        let st = self;
        match st.list(env, args, 0, 2, Seq::empty()) {
            Err(x) => Err(x),
            Ok((st, vs)) => match st.fwd_call(env, "__cross_entropy_fwd"@, vs) {
                Err(x) => Err(x),
                Ok((st, pair)) => {
                    let (st, loss) = st.load(ClTy::I64, pair, 8);
                    let (st, probs) = st.load(ClTy::I64, pair, 16);
                    let st = st.rt(RtSym::AggregateRelease, seq![pair]).0;
                    Ok(
                        (
                            if grad {
                                st.record_five(RtSym::TapeRecordCrossEntropy,
                                    OPTAG_CROSS_ENTROPY,
                                    vs[0],
                                    loss,
                                    probs,
                                    vs[1],
                                )
                            } else {
                                st.rt(RtSym::TensorFree, seq![probs]).0
                            },
                            loss,
                        ),
                    )
                },
            },
        }
    }

    /// Records a permutation that the dimensions at `dims` describe.
    pub open spec fn record_perm(self, x: Val, out: Val, dims: Val, n: Val) -> St {
        self.record_five(RtSym::TapeRecordPerm, OPTAG_TRANSPOSE, x, out, dims, n)
    }

    /// A null dimension list.
    pub open spec fn null_dims(self) -> (St, Val, Val) {
        let st = self;
        let (st, p) = st.iconst(ClTy::Ptr, 0);
        let (st, n) = st.iconst(ClTy::Ptr, 0);
        (st, p, n)
    }

    /// Dimension arguments behind the tensor, as a pointer and a count.
    pub open spec fn dim_args(self, env: EnvView, args: Seq<TypedExpr>) -> Result<(St, Val, Val), Fail>
        decreases args, args.len() + 1,
    {
        let st = self;
        if args.len() <= 1 {
            Ok(st.null_dims())
        } else {
            let (st, s) = st.slot(state::stack_size(8, (args.len() - 1) as nat), 3);
            match st.spill(env, args, 1, 1, s) {
                Err(x) => Err(x),
                Ok(st) => {
                    let (st, p) = st.stack_addr(s);
                    let (st, n) = st.iconst(ClTy::Ptr, args.len() - 1);
                    Ok((st, p, n))
                },
            }
        }
    }

    /// `transpose(t)`: reverses the two dimensions of a matrix.
    pub open spec fn transpose_2d(self, env: EnvView, x: Val, grad: bool) -> Lowered {
        let st = self;
        match st.fwd_call(env, "__transpose_2d_fwd"@, seq![x]) {
            Err(x) => Err(x),
            Ok((st, out)) => if grad {
                let (st, p, n) = st.null_dims();
                Ok((st.record_perm(x, out, p, n), out))
            } else {
                Ok((st, out))
            },
        }
    }

    /// `permute(t, p0, p1, p2)`.
    pub open spec fn permute_3d(self, env: EnvView, vs: Seq<Val>, grad: bool) -> Lowered {
        let st = self;
        match st.fwd_call(env, "__permute_3d_fwd"@, vs) {
            Err(x) => Err(x),
            Ok((st, out)) => if grad {
                let (st, s) = st.slot(24, 3);
                let st = st.stack_store(vs[1], s, 0);
                let st = st.stack_store(vs[2], s, 8);
                let st = st.stack_store(vs[3], s, 16);
                let (st, dims) = st.stack_addr(s);
                let (st, n) = st.iconst(ClTy::Ptr, 3);
                Ok((st.record_perm(vs[0], out, dims, n), out))
            } else {
                Ok((st, out))
            },
        }
    }

    /// `reshape`, `transpose` and `permute`.
    pub open spec fn shape_op(self, env: EnvView, b: Builtin, args: Seq<TypedExpr>, grad: bool) -> Lowered
        decreases args, args.len() + 6,
    {
        let st = self;
        if b is Permute && args.len() == 4 {
            match st.list(env, args, 0, 4, Seq::empty()) {
                Err(x) => Err(x),
                Ok((st, vs)) => st.permute_3d(env, vs, grad),
            }
        } else {
            match st.list(env, args, 0, 1, Seq::empty()) {
                Err(x) => Err(x),
                Ok((st, vs)) => if b is Transpose && args.len() == 1 {
                    st.transpose_2d(env, vs[0], grad)
                } else {
                    match st.dim_args(env, args) {
                        Err(x) => Err(x),
                        Ok((st, dims, n)) => {
                            let (st, out) = st.rt(if b is Reshape {
                                    RtSym::TensorReshape
                                } else {
                                    RtSym::TensorPermute
                                },
                                seq![vs[0], dims, n],
                            );
                            Ok(
                                (
                                    if !grad {
                                        st
                                    } else if b is Reshape {
                                        st.record_unary(OPTAG_RESHAPE, vs[0], out)
                                    } else {
                                        st.record_perm(vs[0], out, dims, n)
                                    },
                                    out,
                                ),
                            )
                        },
                    }
                },
            }
        }
    }

    /// `zero_grad`: the handles on the stack and one call.
    pub open spec fn zero_grad(self, env: EnvView, args: Seq<TypedExpr>) -> Lowered
        decreases args, args.len() + 1,
    {
        let st = self;
        if args.len() == 0 {
            Ok(st.iconst(ClTy::I64, 0))
        } else {
            let (st, s) = st.slot(state::stack_size(8, args.len()), 3);
            match st.spill(env, args, 0, 0, s) {
                Err(x) => Err(x),
                Ok(st) => {
                    let (st, p) = st.stack_addr(s);
                    let (st, n) = st.iconst(ClTy::Ptr, args.len() as int);
                    let st = st.rt(RtSym::TapeZeroGrad, seq![p, n]).0;
                    Ok(st.iconst(ClTy::I64, 0))
                },
            }
        }
    }

    /// A built-in function that is neither printing nor a kernel.
    pub open spec fn builtin_call(self, env: EnvView, b: Builtin, args: Seq<TypedExpr>, grad: bool) -> Lowered
        decreases args, args.len() + 10,
    {
        let st = self;
        match b {
            Builtin::Print | Builtin::Println => Err(unsupp(""@)),
            Builtin::Zeros => st.shaped_alloc(env, RtSym::TensorAllocZerosGpu, args),
            Builtin::Ones => st.shaped_alloc(env, RtSym::TensorAllocOnesGpu, args),
            Builtin::Randn => st.shaped_alloc(env, RtSym::TensorRandn, args),
            Builtin::Reshape | Builtin::Transpose | Builtin::Permute => st.shape_op(env, b,
                args,
                grad,
            ),
            Builtin::Sum => if args.len() == 1 {
                st.sum_all(env, args, grad)
            } else {
                st.axis_reduction(env, b, args, grad)
            },
            Builtin::Mean | Builtin::Max | Builtin::Variance => st.axis_reduction(env, b,
                args,
                grad,
            ),
            Builtin::Softmax => st.softmax(env, args, grad),
            Builtin::Layernorm => st.layernorm(env, args, grad),
            Builtin::Gelu => st.gelu(env, args, grad),
            Builtin::Embedding => st.embedding(env, args, grad),
            Builtin::CrossEntropy => st.cross_entropy(env, args, grad),
            Builtin::CausalMask => st.rt_args(env, RtSym::TensorCausalMask, args, 1),
            Builtin::Variable => match st.list(env, args, 0, 1, Seq::empty()) {
                Err(x) => Err(x),
                Ok((st, vs)) => {
                    let st = st.rt(RtSym::TensorRetain, seq![vs[0]]).0;
                    Ok((st.rt(RtSym::TapeRegisterLeaf, seq![vs[0]]).0, vs[0]))
                },
            },
            Builtin::Backward => st.unit_call(env, RtSym::Backward, args),
            Builtin::ZeroGrad => st.zero_grad(env, args),
            Builtin::TensorPrint => st.unit_call(env, RtSym::TensorPrint, args),
            Builtin::ReadFile => st.rt_args(env, RtSym::ReadFile, args, 1),
            Builtin::StrLen => st.rt_args(env, RtSym::StrLen, args, 1),
            Builtin::Len => match st.list(env, args, 0, 1, Seq::empty()) {
                Err(x) => Err(x),
                Ok((st, vs)) => Ok(st.load(ClTy::I64, vs[0], 8)),
            },
            Builtin::StrCharAt => st.rt_args(env, RtSym::StrCharAt, args, 2),
            Builtin::StrFromChar => st.rt_args(env, RtSym::StrFromChar, args, 1),
            Builtin::RandUniform => st.rt_args(env, RtSym::RandUniform, args, 0),
            Builtin::RecordDiff => st.unit_call(env, RtSym::RecordDiff, args),
            Builtin::RandInt => st.rt_args(env, RtSym::RandInt, args, 1),
            Builtin::BufferI32 => st.rt_args(env, RtSym::BufferI32, args, 1),
            Builtin::Freeze => st.rt_args(env, RtSym::BufferFreezeI32, args, 1),
        }
    }

    /// A runtime call on one argument that has no result; its value is zero.
    pub open spec fn unit_call(self, env: EnvView, sym: RtSym, args: Seq<TypedExpr>) -> Lowered
        decreases args, 3nat,
    {
        let st = self;
        match st.rt_args(env, sym, args, 1) {
            Err(x) => Err(x),
            Ok((st, v)) => Ok(st.iconst(ClTy::I64, 0)),
        }
    }

    /// A call of a function of the program; one without a result has the value
    /// zero.
    pub open spec fn user_call(self, env: EnvView, callee: Seq<char>, args: Seq<TypedExpr>) -> Lowered
        decreases args, args.len() + 1,
    {
        let st = self;
        if !env.fns.contains_key(callee) {
            Err(unsupp("unknown callee: "@ + callee))
        } else {
            match st.list(env, args, 0, args.len(), Seq::empty()) {
                Err(x) => Err(x),
                Ok((st, vs)) => {
                    let f = env.fns[callee];
                    let (st, v) = st.call(f.callee(), vs);
                    if f.ret is None {
                        Ok(st.iconst(ClTy::I64, 0))
                    } else {
                        Ok((st, v))
                    }
                },
            }
        }
    }

    /// A call of a kernel by its name, recorded when it takes part in gradients.
    pub open spec fn kernel_callee(self, env: EnvView, callee: Seq<char>, args: Seq<TypedExpr>, grad: bool) -> Lowered
        decreases args, args.len() + 5,
    {
        let st = self;
        if grad {
            match builtins::optag_of_unary(callee) {
                None => Err(unsupp("no OpTag for grad-tracked builtin '"@ + callee + "'"@)),
                Some(tag) => match st.list(env, args, 0, 1, Seq::empty()) {
                    Err(x) => Err(x),
                    Ok((st, vs)) => match st.dispatch_handles(env, callee, vs) {
                        Err(x) => Err(x),
                        Ok((st, out)) => Ok((st.record_unary(tag, vs[0], out), out)),
                    },
                },
            }
        } else {
            st.kernel_dispatch(env, callee, args)
        }
    }

    /// A call: printing, then kernels, then built-in functions, then functions of
    /// the program.
    pub open spec fn call_expr(self, env: EnvView, callee: Seq<char>, args: Seq<TypedExpr>, grad: bool) -> Lowered
        decreases args, args.len() + format_of(args).len() + 20,
    {
        match builtins::builtin_of(callee) {
            Some(Builtin::Print) => self.print_call(env, false, args),
            Some(Builtin::Println) => self.print_call(env, true, args),
            other => if env.kernels.contains_key(callee) {
                self.kernel_callee(env, callee, args, grad)
            } else {
                match other {
                    Some(b) => self.builtin_call(env, b, args, grad),
                    None => self.user_call(env, callee, args),
                }
            },
        }
    }

    /// An element read from an array, list, buffer or tensor, and reads of a
    /// tensor's dimensions.
    pub open spec fn index_expr(self, env: EnvView, e: TypedExpr) -> Lowered
        decreases e, 2nat,
    {
        let st = self;
        match e.kind {
            TypedExprKind::Index { base, indices } => match base.kind {
                TypedExprKind::FieldAccess { base: inner, field } => if (field@ == "shape"@ || field@
                    == "strides"@) && inner.ty is Tensor {
                    match st.expr(env, *inner) {
                        Err(x) => Err(x),
                        Ok((st, handle)) => match st.list(env, indices@, 0, 1, Seq::empty()) {
                            Err(x) => Err(x),
                            Ok((st, vs)) => Ok(st.rt(RtSym::TensorDim, seq![handle, vs[0]])),
                        },
                    }
                } else {
                    st.index_value(env, e)
                },
                _ => st.index_value(env, e),
            },
            _ => Err(unsupp(""@)),
        }
    }

    pub open spec fn index_value(self, env: EnvView, e: TypedExpr) -> Lowered
        decreases e, 1nat,
    {
        let st = self;
        match e.kind {
            TypedExprKind::Index { base, indices } => if base.ty is Array || base.ty is List
                || base.ty is Buffer || base.ty is Tensor {
                match st.expr(env, *base) {
                    Err(x) => Err(x),
                    Ok((st, ptr)) => match st.list(env, indices@, 0, 1, Seq::empty()) {
                        Err(x) => Err(x),
                        Ok((st, vs)) => if base.ty is Buffer {
                            Ok(st.rt(RtSym::BufferGetI32, seq![ptr, vs[0]]))
                        } else if base.ty is Tensor {
                            Ok(st.rt(RtSym::TensorGetF32, seq![ptr, vs[0]]))
                        } else {
                            let (st, addr) = st.slot_addr(ptr,
                                vs[0],
                                if base.ty is Array {
                                    0
                                } else {
                                    16
                                },
                            );
                            match e.ty.machine() {
                                None => Err(unsupp("Index: unit element type"@)),
                                Some(t) => Ok(st.load(t, addr, 0)),
                            }
                        },
                    },
                }
            } else {
                Err(
                    unsupp(
                        "Index: only Array, Buffer, Tensor<f32>, or List indexing is supported"@,
                    ),
                )
            },
            _ => Err(unsupp(""@)),
        }
    }

    /// A field of a struct, or one of the properties of a tensor.
    pub open spec fn field_access(self, env: EnvView, base: TypedExpr, field: Seq<char>, ty: ResolvedTy) -> Lowered
        decreases base, 4nat,
    {
        let st = self;
        if base.ty is Tensor && (field == "len"@ || field == "ndim"@ || field == "shape"@ || field
            == "strides"@ || field == "data"@ || field == "grad"@) {
            match st.expr(env, base) {
                Err(x) => Err(x),
                Ok((st, handle)) => if field == "len"@ {
                    Ok(st.rt(RtSym::TensorLen, seq![handle]))
                } else if field == "ndim"@ {
                    Ok(st.rt(RtSym::TensorNdim, seq![handle]))
                } else if field == "shape"@ || field == "strides"@ {
                    Ok(st.iconst(ClTy::I64, 0))
                } else if field == "data"@ {
                    Ok((st, handle))
                } else {
                    Ok(st.rt(RtSym::TapeGetGrad, seq![handle]))
                },
            }
        } else {
            match base.ty {
                ResolvedTy::Struct { name, fields } => match field_pos(fields@, field, 0) {
                    None => Err(unsupp("struct has no field '"@ + field + "'"@)),
                    Some(i) => match st.expr(env, base) {
                        Err(x) => Err(x),
                        Ok((st, ptr)) => match ty.machine() {
                            None => Err(unsupp("unit field access"@)),
                            Some(t) => Ok(st.load(t, ptr, state::slot_offset(8, i))),
                        },
                    },
                },
                _ => Err(unsupp("FieldAccess ."@ + field + " not yet supported"@)),
            }
        }
    }

    /// Three dimensions of an array expression, copied into a fresh stack slot.
    pub open spec fn dims_slot(self, env: EnvView, e: TypedExpr) -> Result<(St, StackSlot), Fail>
        decreases e, 4nat,
    {
        let st = self;
        let (st, s) = st.slot(24, 3);
        match st.expr(env, e) {
            Err(x) => Err(x),
            Ok((st, arr)) => Ok((st.copy_dims(arr, s, 0), s)),
        }
    }

    /// Output shape of a launch: pointer and rank; without one the runtime takes
    /// the shape of the first input.
    pub open spec fn launch_shape(self, env: EnvView, out_shape: Option<Box<TypedExpr>>) -> Result<(St, Val, Val), Fail>
        decreases out_shape, 5nat,
    {
        let st = self;
        match out_shape {
            None => Ok(st.null_dims()),
            Some(os) => match st.expr(env, *os) {
                Err(x) => Err(x),
                Ok((st, arr)) => {
                    let (st, s) = st.slot(24, 3);
                    let st = st.copy_dims(arr, s, 0);
                    let (st, p) = st.stack_addr(s);
                    let rank = match os.kind {
                        TypedExprKind::ArrayLiteral { elements } => launch_rank(
                            elements@,
                            elements@.len(),
                        ),
                        _ => 3,
                    };
                    let (st, n) = st.val(Inst::Iconst { ty: ClTy::Ptr, imm: (rank as usize) as i64 },
                    );
                    Ok((st, p, n))
                },
            },
        }
    }

    /// Scalar arguments of a launch from position `i` on, packed in four bytes
    /// each.
    pub open spec fn uniforms(self, env: EnvView, args: Seq<TypedExpr>, i: nat, s: StackSlot) -> Result<St, Fail>
        decreases args, args.len() - i,
    {
        let st = self;
        if i >= args.len() {
            Ok(st)
        } else {
            match st.expr(env, args[i as int]) {
                Err(x) => Err(x),
                Ok((st, v)) => match args[i as int].ty {
                    ResolvedTy::Scalar(t) => {
                        let (st, v) = if t.is_float() {
                            (st, v)
                        } else {
                            st.convert(Convert::Ireduce32, v)
                        };
                        st.stack_store(v, s, (4 * i) as i32).uniforms(env, args, i + 1, s)
                    },
                    _ => Err(unsupp("KernelLaunch: scalar_arg is not a scalar"@)),
                },
            }
        }
    }

    /// The packed scalar arguments of a launch: pointer and size.
    pub open spec fn uniform_block(self, env: EnvView, args: Seq<TypedExpr>) -> Result<(St, Val, Val), Fail>
        decreases args, args.len() + 1,
    {
        let st = self;
        if args.len() == 0 {
            Ok(st.null_dims())
        } else {
            let size = state::stack_size(4, args.len());
            let (st, s) = st.slot(max_u32(size, 4), 2);
            match st.uniforms(env, args, 0, s) {
                Err(x) => Err(x),
                Ok(st) => {
                    let (st, p) = st.stack_addr(s);
                    let (st, n) = st.iconst(ClTy::Ptr, size as int);
                    Ok((st, p, n))
                },
            }
        }
    }

    /// Tensor arguments of a launch, in a stack slot that is never empty.
    pub open spec fn launch_handles(self, env: EnvView, args: Seq<TypedExpr>) -> Result<(St, StackSlot), Fail>
        decreases args, args.len() + 1,
    {
        let st = self;
        if args.len() == 0 {
            Ok(st.slot(8, 3))
        } else {
            let (st, s) = st.slot(state::stack_size(8, args.len()), 3);
            match st.spill(env, args, 0, 0, s) {
                Err(x) => Err(x),
                Ok(st) => Ok((st, s)),
            }
        }
    }

    /// An explicit kernel launch: handles, grid, threadgroup, output shape and
    /// packed scalars, in this order.
    pub open spec fn kernel_launch(self, env: EnvView, e: TypedExpr) -> Lowered
        decreases e, 2nat,
    {
        let st = self;
        match e.kind {
            TypedExprKind::KernelLaunch { kernel, grid, tg, out_shape, tensor_args, scalar_args } =>
                if !env.kernels.contains_key(kernel@) {
                Err(Fail::UnknownKernel(kernel@))
            } else {
                match st.launch_handles(env, tensor_args@) {
                    Err(x) => Err(x),
                    Ok((st, handles_slot)) => match st.dims_slot(env, *grid) {
                        Err(x) => Err(x),
                        Ok((st, grid_slot)) => match st.dims_slot(env, *tg) {
                            Err(x) => Err(x),
                            Ok((st, tg_slot)) => match st.launch_shape(env, out_shape) {
                                Err(x) => Err(x),
                                Ok((st, out_ptr, out_rank)) => {
                                    let (st, dt) = st.iconst(ClTy::I32,
                                        match e.ty {
                                            ResolvedTy::Tensor { dtype } => dtype.code() as int,
                                            _ => 0,
                                        },
                                    );
                                    match st.uniform_block(env, scalar_args@) {
                                        Err(x) => Err(x),
                                        Ok((st, uni_ptr, uni_size)) => Ok(
                                            st.launch(env.kernels[kernel@],
                                                handles_slot,
                                                tensor_args@.len(),
                                                grid_slot,
                                                tg_slot,
                                                out_ptr,
                                                out_rank,
                                                dt,
                                                uni_ptr,
                                                uni_size,
                                            ),
                                        ),
                                    }
                                },
                            },
                        },
                    },
                }
            },
            _ => Err(unsupp(""@)),
        }
    }

    /// The launch call itself.
    pub open spec fn launch(self, id: u64,
        handles_slot: StackSlot,
        n: nat,
        grid_slot: StackSlot,
        tg_slot: StackSlot,
        out_ptr: Val,
        out_rank: Val,
        dt: Val,
        uni_ptr: Val,
        uni_size: Val,
    ) -> (St, Val) {
        let st = self;
        let (st, id_val) = st.val(Inst::Iconst { ty: ClTy::I64, imm: id as i64 });
        let (st, handles) = st.stack_addr(handles_slot);
        let (st, count) = st.iconst(ClTy::Ptr, n as int);
        let (st, grid) = st.stack_addr(grid_slot);
        let (st, tg) = st.stack_addr(tg_slot);
        st.rt(RtSym::KernelDispatchV2,
            seq![id_val, handles, count, grid, tg, out_ptr, out_rank, dt, uni_ptr, uni_size],
        )
    }
}

} // verus!
