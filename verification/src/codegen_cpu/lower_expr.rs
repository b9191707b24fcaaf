//! Lowering of expressions. Each function emits what the translation scheme
//! prescribes, or fails as it says.

use crate::codegen_cpu::builtins;
use crate::codegen_cpu::builtins::{
    Builtin, OPTAG_CROSS_ENTROPY, OPTAG_EMBEDDING, OPTAG_GELU, OPTAG_LAYERNORM, OPTAG_NEG,
    OPTAG_RESHAPE, OPTAG_SOFTMAX, OPTAG_SUM, OPTAG_TRANSPOSE,
};
use crate::codegen_cpu::inst::{
    cranelift_type, dtype_tag, scalar_cranelift_type, Arith, ClTy, Convert, FloatCc, Inst, IntCc,
    StackSlot, Val,
};
use crate::codegen_cpu::scheme_expr;
use crate::codegen_cpu::segments;
use crate::codegen_cpu::segments::FormatSegment;
use crate::codegen_cpu::state;
use crate::codegen_cpu::state::{
    box_size_of, slot_offset_of, stack_size_of, unsupported, unsupported_mid, unsupported_msg,
    CodegenError, Env, Fail, FnTranslator, St,
};
use crate::codegen_cpu::symbols::RtSym;
use crate::text::same_text;
use crate::typed::{
    is_float_scalar, scalar_broadcast_builtin_name, BinOp, Lit, ResolvedTy, ScalarTy, TypedExpr,
    TypedExprKind, UnaryOp,
};
use vstd::prelude::*;

verus! {

/// As [`state::yields`], for a step that gives several values.
pub open spec fn yields_all(
    r: Result<Vec<Val>, CodegenError>,
    st: St,
    want: Result<(St, Seq<Val>), Fail>,
) -> bool {
    match r {
        Ok(vs) => want == Ok::<(St, Seq<Val>), Fail>((st, vs@)),
        Err(e) => want == Err::<(St, Seq<Val>), Fail>(e@),
    }
}

/// As [`state::yields`], for a step that gives a stack slot.
pub open spec fn yields_slot(
    r: Result<StackSlot, CodegenError>,
    st: St,
    want: Result<(St, StackSlot), Fail>,
) -> bool {
    match r {
        Ok(s) => want == Ok::<(St, StackSlot), Fail>((st, s)),
        Err(e) => want == Err::<(St, StackSlot), Fail>(e@),
    }
}

/// As [`state::yields`], for a step that gives two values.
pub open spec fn yields_pair(
    r: Result<(Val, Val), CodegenError>,
    st: St,
    want: Result<(St, Val, Val), Fail>,
) -> bool {
    match r {
        Ok((a, b)) => want == Ok::<(St, Val, Val), Fail>((st, a, b)),
        Err(e) => want == Err::<(St, Val, Val), Fail>(e@),
    }
}

fn missing_arg() -> (r: CodegenError)
    ensures
        r@ == scheme_expr::missing_arg(),
{
    unsupported_msg("missing argument")
}

fn literal_width(dtype: ScalarTy) -> (r: u32)
    ensures
        r == scheme_expr::literal_width(dtype),
{
    match dtype {
        ScalarTy::I64 => 8,
        _ => 4,
    }
}

fn field_position(fields: &Vec<(String, ResolvedTy)>, name: &str) -> (r: Option<usize>)
    ensures
        match r {
            Some(i) => scheme_expr::field_pos(fields@, name@, 0) == Some(i as nat),
            None => scheme_expr::field_pos(fields@, name@, 0) is None,
        },
{
    let mut i: usize = 0;
    while i < fields.len()
        invariant
            i <= fields.len(),
            scheme_expr::field_pos(fields@, name@, 0) == scheme_expr::field_pos(
                fields@,
                name@,
                i as nat,
            ),
        decreases fields.len() - i,
    {
        if same_text(fields[i].0.as_str(), name) {
            return Some(i);
        }
        i = i + 1;
    }
    None
}

fn is_zero_literal(e: &TypedExpr) -> (r: bool)
    ensures
        r == (e.kind == TypedExprKind::Lit(Lit::Int(0))),
{
    match &e.kind {
        TypedExprKind::Lit(Lit::Int(n)) => *n == 0,
        _ => false,
    }
}

fn launch_rank(elements: &Vec<TypedExpr>) -> (r: usize)
    ensures
        r == scheme_expr::launch_rank(elements@, elements@.len()),
{
    let mut n: usize = elements.len();
    while n > 1 && is_zero_literal(&elements[n - 1])
        invariant
            n <= elements.len(),
            scheme_expr::launch_rank(elements@, elements@.len()) == scheme_expr::launch_rank(
                elements@,
                n as nat,
            ),
        decreases n,
    {
        n = n - 1;
    }
    n
}

impl FnTranslator {
    fn arith(&mut self, op: Arith, lhs: Val, rhs: Val) -> (r: Val)
        ensures
            (final(self)@, r) == old(self)@.arith(op, lhs, rhs),
    {
        self.val(Inst::Arith { op, lhs, rhs })
    }

    pub(crate) fn convert(&mut self, conv: Convert, v: Val) -> (r: Val)
        ensures
            (final(self)@, r) == old(self)@.convert(conv, v),
    {
        self.val(Inst::Convert { conv, val: v })
    }

    pub(crate) fn load(&mut self, ty: ClTy, base: Val, offset: i32) -> (r: Val)
        ensures
            (final(self)@, r) == old(self)@.load(ty, base, offset),
    {
        self.val(Inst::Load { ty, base, offset })
    }

    pub(crate) fn store(&mut self, v: Val, base: Val, offset: i32)
        ensures
            final(self)@ == old(self)@.store(v, base, offset),
    {
        self.emit(Inst::Store { val: v, base, offset });
    }

    fn stack_store(&mut self, v: Val, s: StackSlot, offset: i32)
        ensures
            final(self)@ == old(self)@.stack_store(v, s, offset),
    {
        self.emit(Inst::StackStore { val: v, slot: s, offset });
    }

    fn stack_addr(&mut self, s: StackSlot) -> (r: Val)
        ensures
            (final(self)@, r) == old(self)@.stack_addr(s),
    {
        self.val(Inst::StackAddr { slot: s })
    }

    /// Emits a literal.
    pub(crate) fn lower_lit(&mut self, l: &Lit, ty: &ResolvedTy) -> (r: Val)
        ensures
            (final(self)@, r) == old(self)@.lit(*l, *ty),
    {
        match l {
            Lit::Int(n) => match ty {
                ResolvedTy::Scalar(s) => if is_float_scalar(*s) {
                    self.val(Inst::F32FromInt { imm: *n })
                } else {
                    self.iconst(scalar_cranelift_type(*s), *n)
                },
                _ => self.val(Inst::F32FromInt { imm: *n }),
            },
            Lit::Float(f) => self.val(Inst::F32Const { bits: f.bits }),
            Lit::Bool(b) => {
                let imm: i64 = if *b {
                    1
                } else {
                    0
                };
                self.iconst(ClTy::I8, imm)
            },
            Lit::Str(s) => {
                let len: usize = s.as_str().len();
                let data = self.emit_static_cstr(s.as_str());
                let n = self.iconst(ClTy::I64, len as i64);
                self.rt2(RtSym::StrBox, data, n)
            },
        }
    }

    fn compare(&mut self, float: bool, fcc: FloatCc, icc: IntCc, l: Val, r: Val) -> (res: Val)
        ensures
            (final(self)@, res) == old(self)@.compare(float, fcc, icc, l, r),
    {
        let flag = if float {
            self.val(Inst::FloatCompare { fcc, lhs: l, rhs: r })
        } else {
            self.val(Inst::IntCompare { icc, lhs: l, rhs: r })
        };
        self.convert(Convert::Bmask8, flag)
    }

    /// Emits an operator on two scalars.
    pub(crate) fn lower_scalar_binop(&mut self, op: BinOp, l: Val, r: Val, s: ScalarTy) -> (res: Result<
        Val,
        CodegenError,
    >)
        ensures
            state::yields(res, final(self)@, old(self)@.scalar_binop(op, l, r, s)),
    {
        let f = is_float_scalar(s);
        match op {
            BinOp::Add => Ok(
                self.arith(
                    if f {
                        Arith::Fadd
                    } else {
                        Arith::Iadd
                    },
                    l,
                    r,
                ),
            ),
            BinOp::Sub => Ok(
                self.arith(
                    if f {
                        Arith::Fsub
                    } else {
                        Arith::Isub
                    },
                    l,
                    r,
                ),
            ),
            BinOp::Mul => Ok(
                self.arith(
                    if f {
                        Arith::Fmul
                    } else {
                        Arith::Imul
                    },
                    l,
                    r,
                ),
            ),
            BinOp::Div => Ok(
                self.arith(
                    if f {
                        Arith::Fdiv
                    } else {
                        Arith::Sdiv
                    },
                    l,
                    r,
                ),
            ),
            BinOp::Eq => Ok(self.compare(f, FloatCc::Equal, IntCc::Equal, l, r)),
            BinOp::NotEq => Ok(self.compare(f, FloatCc::NotEqual, IntCc::NotEqual, l, r)),
            BinOp::Lt => Ok(self.compare(f, FloatCc::LessThan, IntCc::SignedLessThan, l, r)),
            BinOp::LtEq => Ok(
                self.compare(f, FloatCc::LessThanOrEqual, IntCc::SignedLessThanOrEqual, l, r),
            ),
            BinOp::Gt => Ok(self.compare(f, FloatCc::GreaterThan, IntCc::SignedGreaterThan, l, r)),
            BinOp::GtEq => Ok(
                self.compare(f, FloatCc::GreaterThanOrEqual, IntCc::SignedGreaterThanOrEqual, l, r),
            ),
            BinOp::Pow => {
                let exp = match self.val_ty(r) {
                    Some(ClTy::F32) => r,
                    _ => self.convert(Convert::FcvtFromSint, r),
                };
                Ok(self.rt2(RtSym::Powf, l, exp))
            },
            BinOp::Matmul => Err(unsupported_msg("Matmul requires tensor operands")),
            BinOp::And | BinOp::Or => Err(unsupported_msg("And/Or on scalars not supported")),
        }
    }

    /// Emits an operator on two booleans.
    pub(crate) fn lower_bool_binop(&mut self, op: BinOp, l: Val, r: Val) -> (res: Result<
        Val,
        CodegenError,
    >)
        ensures
            state::yields(res, final(self)@, old(self)@.bool_binop(op, l, r)),
    {
        match op {
            BinOp::And => Ok(self.arith(Arith::Band, l, r)),
            BinOp::Or => Ok(self.arith(Arith::Bor, l, r)),
            BinOp::Eq => Ok(self.compare(false, FloatCc::Equal, IntCc::Equal, l, r)),
            BinOp::NotEq => Ok(self.compare(false, FloatCc::NotEqual, IntCc::NotEqual, l, r)),
            _ => Err(unsupported_mid("BinOp ", op.name(), " on bool not supported")),
        }
    }

    /// Allocates a one-element tensor that holds a value.
    pub(crate) fn emit_scalar_tensor(&mut self, f: Val) -> (r: Val)
        ensures
            (final(self)@, r) == old(self)@.scalar_tensor(f),
    {
        let data_slot = self.slot(4, 2);
        self.stack_store(f, data_slot, 0);
        let shape_slot = self.slot(8, 3);
        let one = self.iconst(ClTy::I64, 1);
        self.stack_store(one, shape_slot, 0);
        let data = self.stack_addr(data_slot);
        let shape = self.stack_addr(shape_slot);
        let dtype = self.iconst(ClTy::I32, 0);
        let ndims = self.iconst(ClTy::Ptr, 1);
        self.rt4(RtSym::TensorAllocGpu, dtype, shape, ndims, data)
    }

    fn dispatch_slot(&mut self, id: u64, s: StackSlot, n: usize) -> (r: Val)
        ensures
            (final(self)@, r) == old(self)@.dispatch_slot(id, s, n as nat),
    {
        let id_val = self.iconst(ClTy::I64, id as i64);
        let handles = self.stack_addr(s);
        let count = self.iconst(ClTy::Ptr, n as i64);
        self.rt3(RtSym::KernelDispatch, id_val, handles, count)
    }

    /// Calls a kernel on handles that have been computed already.
    pub(crate) fn lower_kernel_dispatch_with_handles(
        &mut self,
        env: &Env,
        name: &str,
        handles: &Vec<Val>,
    ) -> (r: Result<Val, CodegenError>)
        ensures
            state::yields(r, final(self)@, old(self)@.dispatch_handles(env@, name@, handles@)),
    {
        let id: u64 = match env.kernels.get(name) {
            Some(id) => *id,
            None => {
                return Err(CodegenError::UnknownKernel { name: name.to_string() });
            },
        };
        let s = self.slot(stack_size_of(8, handles.len()), 3);
        let ghost st0 = self@;
        let mut i: usize = 0;
        while i < handles.len()
            invariant
                i <= handles.len(),
                st0.spill_handles(s, handles@, 0) == self@.spill_handles(s, handles@, i as nat),
            decreases handles.len() - i,
        {
            self.stack_store(handles[i], s, slot_offset_of(0, i));
            i = i + 1;
        }
        Ok(self.dispatch_slot(id, s, handles.len()))
    }

    fn fwd_call(&mut self, env: &Env, name: &str, args: &Vec<Val>) -> (r: Result<Val, CodegenError>)
        ensures
            state::yields(r, final(self)@, old(self)@.fwd_call(env@, name@, args@)),
    {
        match env.fns.get(name) {
            Some(f) => Ok(
                self.call(
                    crate::codegen_cpu::inst::Callee::Function { index: f.index, ret: f.ret },
                    args,
                ),
            ),
            None => Err(unsupported_mid("stdlib ", name, " not found")),
        }
    }

    fn record_unary(&mut self, tag: i32, x: Val, out: Val)
        ensures
            final(self)@ == old(self)@.record_unary(tag, x, out),
    {
        let t = self.iconst(ClTy::I32, tag as i64);
        self.rt3(RtSym::TapeRecordUnary, t, x, out);
    }

    fn record_binop(&mut self, tag: i32, a: Val, b: Val, out: Val)
        ensures
            final(self)@ == old(self)@.record_binop(tag, a, b, out),
    {
        let t = self.iconst(ClTy::I32, tag as i64);
        self.rt4(RtSym::TapeRecordBinop, t, a, b, out);
    }

    fn record_five(&mut self, sym: RtSym, tag: i32, a: Val, b: Val, c: Val, d: Val)
        ensures
            final(self)@ == old(self)@.record_five(sym, tag, a, b, c, d),
    {
        let t = self.iconst(ClTy::I32, tag as i64);
        self.rt5(sym, t, a, b, c, d);
    }

    fn record_perm(&mut self, x: Val, out: Val, dims: Val, n: Val)
        ensures
            final(self)@ == old(self)@.record_perm(x, out, dims, n),
    {
        self.record_five(RtSym::TapeRecordPerm, OPTAG_TRANSPOSE, x, out, dims, n);
    }

    fn print_text(&mut self, text: &str)
        ensures
            final(self)@ == old(self)@.print_text(text@),
    {
        let p = self.emit_static_cstr(text);
        self.rt1(RtSym::PrintCstr, p);
    }

    fn print_typed(&mut self, v: Val, ty: &ResolvedTy) -> (r: Result<(), CodegenError>)
        ensures
            state::completes(r, final(self)@, old(self)@.print_typed(v, *ty)),
    {
        match ty {
            ResolvedTy::Tensor { dtype } => {
                self.rt1(RtSym::TensorPrint, v);
            },
            ResolvedTy::Scalar(s) => {
                if is_float_scalar(*s) {
                    self.rt1(RtSym::PrintF32, v);
                } else {
                    let wide = match scalar_cranelift_type(*s) {
                        ClTy::I64 => v,
                        _ => self.convert(Convert::Sextend64, v),
                    };
                    self.rt1(RtSym::PrintI64, wide);
                }
            },
            ResolvedTy::Bool => {
                self.rt1(RtSym::PrintBool, v);
            },
            ResolvedTy::Str => {
                self.rt1(RtSym::PrintStr, v);
            },
            _ => {
                let t = ty.render();
                return Err(unsupported_mid("print of ", t.as_str(), " not supported"));
            },
        }
        Ok(())
    }

    pub(crate) fn slot_addr(&mut self, ptr: Val, index: Val, base: i64) -> (r: Val)
        ensures
            (final(self)@, r) == old(self)@.slot_addr(ptr, index, base),
    {
        let eight = self.iconst(ClTy::I64, 8);
        let off = self.arith(Arith::Imul, index, eight);
        if base == 0 {
            self.arith(Arith::Iadd, ptr, off)
        } else {
            let off = self.val(Inst::IaddImm { val: off, imm: base });
            self.arith(Arith::Iadd, ptr, off)
        }
    }

    fn alloc_box(&mut self, size: i64) -> (r: Val)
        ensures
            (final(self)@, r) == old(self)@.alloc_box(size),
    {
        let n = self.iconst(ClTy::I64, size);
        self.rt1(RtSym::AggregateAlloc, n)
    }

    fn copy_dims(&mut self, arr: Val, s: StackSlot)
        ensures
            final(self)@ == old(self)@.copy_dims(arr, s, 0),
    {
        let ghost st0 = self@;
        let mut dim: usize = 0;
        while dim < 3
            invariant
                dim <= 3,
                st0.copy_dims(arr, s, 0) == self@.copy_dims(arr, s, dim as nat),
            decreases 3 - dim,
        {
            let off = self.iconst(ClTy::Ptr, 8 * (dim as i64));
            let src = self.arith(Arith::Iadd, arr, off);
            let v = self.load(ClTy::I64, src, 0);
            self.stack_store(v, s, slot_offset_of(0, dim));
            dim = dim + 1;
        }
    }

    fn store_dims(&mut self, dims: &Vec<usize>, s: StackSlot)
        ensures
            final(self)@ == old(self)@.store_dims(dims@, s, 0),
    {
        let ghost st0 = self@;
        let mut i: usize = 0;
        while i < dims.len()
            invariant
                i <= dims.len(),
                st0.store_dims(dims@, s, 0) == self@.store_dims(dims@, s, i as nat),
            decreases dims.len() - i,
        {
            let d = self.iconst(ClTy::I64, dims[i] as i64);
            self.stack_store(d, s, slot_offset_of(0, i));
            i = i + 1;
        }
    }

    fn literal_element(&mut self, dtype: ScalarTy, v: Val, ty: &ResolvedTy) -> (r: Val)
        ensures
            (final(self)@, r) == old(self)@.literal_element(dtype, v, *ty),
    {
        match dtype {
            ScalarTy::I32 | ScalarTy::I64 => v,
            _ => match ty {
                ResolvedTy::Scalar(s) => if is_float_scalar(*s) {
                    v
                } else {
                    self.convert(Convert::FcvtFromSint, v)
                },
                _ => v,
            },
        }
    }

    fn null_dims(&mut self) -> (r: (Val, Val))
        ensures
            (final(self)@, r.0, r.1) == old(self)@.null_dims(),
    {
        let p = self.iconst(ClTy::Ptr, 0);
        let n = self.iconst(ClTy::Ptr, 0);
        (p, n)
    }

    /// Lowers an expression to the value it computes.
    pub fn lower_expr(&mut self, env: &Env, e: &TypedExpr) -> (r: Result<Val, CodegenError>)
        ensures
            state::yields(r, final(self)@, old(self)@.expr(env@, *e)),
        decreases e, 3nat,
    {
        match &e.kind {
            TypedExprKind::Lit(l) => Ok(self.lower_lit(l, &e.ty)),
            TypedExprKind::Ident(name) => self.use_var(name),
            TypedExprKind::BinOp { op, lhs, rhs } => self.lower_binop(env, e),
            TypedExprKind::Unary { op, operand } => self.lower_unary(env, *op, operand),
            TypedExprKind::Call { callee, args } => self.lower_call(
                env,
                callee,
                args,
                e.grad_tracked,
            ),
            TypedExprKind::KernelCall { callee, args } => self.lower_kernel_dispatch(
                env,
                callee.as_str(),
                args,
            ),
            TypedExprKind::TensorLiteral { dtype, elements, shape } => self.lower_tensor_literal(
                env,
                *dtype,
                elements,
                shape,
            ),
            TypedExprKind::Index { base, indices } => self.lower_index(env, e),
            TypedExprKind::ArrayLiteral { elements } => self.lower_array_literal(
                env,
                elements,
                e.ty.is_list(),
            ),
            TypedExprKind::FieldAccess { base, field } => self.lower_field_access(
                env,
                base,
                field,
                &e.ty,
            ),
            TypedExprKind::StructInit { name, fields } => self.lower_boxed(env, fields),
            TypedExprKind::EnumInit { variant_index, payload, max_payload_slots } =>
                self.lower_enum_init(env, *variant_index, payload, *max_payload_slots),
            TypedExprKind::TupleInit { elements } => self.lower_boxed(env, elements),
            TypedExprKind::TupleIndex { base, index } => {
                let ptr = self.lower_expr(env, base)?;
                match cranelift_type(&e.ty) {
                    None => Err(unsupported_msg("tuple index has unit type")),
                    Some(t) => Ok(self.load(t, ptr, slot_offset_of(8, *index))),
                }
            },
            TypedExprKind::KernelLaunch {
                kernel,
                grid,
                tg,
                out_shape,
                tensor_args,
                scalar_args,
            } => self.lower_kernel_launch(env, e),
        }
    }

    /// Lowers the first `n` arguments.
    pub(crate) fn lower_list(&mut self, env: &Env, args: &Vec<TypedExpr>, n: usize) -> (r: Result<
        Vec<Val>,
        CodegenError,
    >)
        ensures
            yields_all(r, final(self)@, old(self)@.list(env@, args@, 0, n as nat, Seq::empty())),
            r matches Ok(vs) ==> vs@.len() == n,
        decreases args, n,
    {
        let mut vs: Vec<Val> = Vec::new();
        let mut i: usize = 0;
        while i < n
            invariant
                i <= n,
                vs@.len() == i,
                old(self)@.list(env@, args@, 0, n as nat, Seq::empty()) == self@.list(
                    env@,
                    args@,
                    i as nat,
                    n as nat,
                    vs@,
                ),
            decreases n - i,
        {
            if i >= args.len() {
                return Err(missing_arg());
            }
            match self.lower_expr(env, &args[i]) {
                Ok(v) => vs.push(v),
                Err(x) => {
                    return Err(x);
                },
            }
            i = i + 1;
        }
        Ok(vs)
    }

    /// Lowers the arguments from position `from` on into a stack slot.
    fn lower_spill(&mut self, env: &Env, args: &Vec<TypedExpr>, from: usize, s: StackSlot) -> (r:
        Result<(), CodegenError>)
        ensures
            state::completes(
                r,
                final(self)@,
                old(self)@.spill(env@, args@, from as nat, from as nat, s),
            ),
        decreases args, args@.len() - from,
    {
        let mut i: usize = from;
        while i < args.len()
            invariant
                from <= i,
                old(self)@.spill(env@, args@, from as nat, from as nat, s) == self@.spill(
                    env@,
                    args@,
                    from as nat,
                    i as nat,
                    s,
                ),
            decreases args.len() - i,
        {
            match self.lower_expr(env, &args[i]) {
                Ok(v) => self.stack_store(v, s, slot_offset_of(0, i - from)),
                Err(x) => {
                    return Err(x);
                },
            }
            i = i + 1;
        }
        Ok(())
    }

    /// Lowers the members of a box into its slots.
    fn lower_fill(&mut self, env: &Env, members: &Vec<TypedExpr>, ptr: Val, base: i32) -> (r: Result<
        (),
        CodegenError,
    >)
        ensures
            state::completes(r, final(self)@, old(self)@.fill(env@, members@, 0, ptr, base)),
        decreases members, members@.len(),
    {
        let mut i: usize = 0;
        while i < members.len()
            invariant
                i <= members.len(),
                old(self)@.fill(env@, members@, 0, ptr, base) == self@.fill(
                    env@,
                    members@,
                    i as nat,
                    ptr,
                    base,
                ),
            decreases members.len() - i,
        {
            match self.lower_expr(env, &members[i]) {
                Ok(v) => self.store(v, ptr, slot_offset_of(base, i)),
                Err(x) => {
                    return Err(x);
                },
            }
            i = i + 1;
        }
        Ok(())
    }

    /// Lowers a struct or tuple value.
    fn lower_boxed(&mut self, env: &Env, members: &Vec<TypedExpr>) -> (r: Result<Val, CodegenError>)
        ensures
            state::yields(r, final(self)@, old(self)@.boxed(env@, members@)),
        decreases members, members@.len() + 1,
    {
        let ptr = self.alloc_box(box_size_of(8, members.len()));
        self.lower_fill(env, members, ptr, 8)?;
        Ok(ptr)
    }

    /// Lowers an enum value.
    fn lower_enum_init(
        &mut self,
        env: &Env,
        tag: u32,
        payload: &Vec<TypedExpr>,
        max_slots: usize,
    ) -> (r: Result<Val, CodegenError>)
        ensures
            state::yields(
                r,
                final(self)@,
                old(self)@.enum_init(env@, tag, payload@, max_slots as nat),
            ),
        decreases payload, payload@.len() + 1,
    {
        let ptr = self.alloc_box(box_size_of(16, max_slots));
        let t = self.iconst(ClTy::I32, tag as i64);
        self.store(t, ptr, 8);
        self.lower_fill(env, payload, ptr, 16)?;
        Ok(ptr)
    }

    /// Lowers an array or list literal.
    fn lower_array_literal(&mut self, env: &Env, elements: &Vec<TypedExpr>, is_list: bool) -> (r:
        Result<Val, CodegenError>)
        ensures
            state::yields(r, final(self)@, old(self)@.array_literal(env@, elements@, is_list)),
        decreases elements, elements@.len() + 1,
    {
        if is_list {
            let ptr = self.alloc_box(box_size_of(16, elements.len()));
            let n = self.iconst(ClTy::I64, elements.len() as i64);
            self.store(n, ptr, 8);
            self.lower_fill(env, elements, ptr, 16)?;
            Ok(ptr)
        } else {
            let size = self.iconst(ClTy::Ptr, box_size_of(0, elements.len()));
            let ptr = self.rt1(RtSym::Malloc, size);
            self.lower_fill(env, elements, ptr, 0)?;
            Ok(ptr)
        }
    }

    fn lower_literal_elements(
        &mut self,
        env: &Env,
        dtype: ScalarTy,
        elements: &Vec<TypedExpr>,
        s: StackSlot,
    ) -> (r: Result<(), CodegenError>)
        ensures
            state::completes(
                r,
                final(self)@,
                old(self)@.literal_elements(env@, dtype, elements@, 0, s),
            ),
        decreases elements, elements@.len(),
    {
        let w: u32 = literal_width(dtype);
        let mut i: usize = 0;
        while i < elements.len()
            invariant
                i <= elements.len(),
                w == scheme_expr::literal_width(dtype),
                old(self)@.literal_elements(env@, dtype, elements@, 0, s) == self@.literal_elements(
                    env@,
                    dtype,
                    elements@,
                    i as nat,
                    s,
                ),
            decreases elements.len() - i,
        {
            match self.lower_expr(env, &elements[i]) {
                Ok(v) => {
                    let stored = self.literal_element(dtype, v, &elements[i].ty);
                    let offset: i32 = #[verifier::truncate]
                    ((w as i128 * i as i128) as i32);
                    self.stack_store(stored, s, offset);
                },
                Err(x) => {
                    return Err(x);
                },
            }
            i = i + 1;
        }
        Ok(())
    }

    /// Lowers a tensor literal.
    fn lower_tensor_literal(
        &mut self,
        env: &Env,
        dtype: ScalarTy,
        elements: &Vec<TypedExpr>,
        shape: &Vec<usize>,
    ) -> (r: Result<Val, CodegenError>)
        ensures
            state::yields(
                r,
                final(self)@,
                old(self)@.tensor_literal(env@, dtype, elements@, shape@),
            ),
        decreases elements, elements@.len() + 1,
    {
        let w: u32 = literal_width(dtype);
        let size: u32 = stack_size_of(w, elements.len());
        let data_slot = self.slot(
            if size >= w {
                size
            } else {
                w
            },
            if w == 8 {
                3
            } else {
                2
            },
        );
        self.lower_literal_elements(env, dtype, elements, data_slot)?;
        let shape_size: u32 = stack_size_of(8, shape.len());
        let shape_slot = self.slot(
            if shape_size >= 8 {
                shape_size
            } else {
                8
            },
            3,
        );
        self.store_dims(shape, shape_slot);
        let data = self.stack_addr(data_slot);
        let dims = self.stack_addr(shape_slot);
        let tag = self.iconst(ClTy::I32, dtype_tag(dtype) as i64);
        let ndims = self.iconst(ClTy::Ptr, shape.len() as i64);
        Ok(self.rt4(RtSym::TensorAllocGpu, tag, dims, ndims, data))
    }

    /// Lowers a call of a kernel that maps over its arguments.
    pub(crate) fn lower_kernel_dispatch(&mut self, env: &Env, name: &str, args: &Vec<TypedExpr>) -> (r:
        Result<Val, CodegenError>)
        ensures
            state::yields(r, final(self)@, old(self)@.kernel_dispatch(env@, name@, args@)),
        decreases args, args@.len() + 1,
    {
        let id: u64 = match env.kernels.get(name) {
            Some(id) => *id,
            None => {
                return Err(CodegenError::UnknownKernel { name: name.to_string() });
            },
        };
        let s = self.slot(stack_size_of(8, args.len()), 3);
        self.lower_spill(env, args, 0, s)?;
        Ok(self.dispatch_slot(id, s, args.len()))
    }

    /// Lowers a scalar operand to a one-element tensor.
    fn materialize_scalar_tensor(&mut self, env: &Env, e: &TypedExpr) -> (r: Result<
        Val,
        CodegenError,
    >)
        ensures
            state::yields(r, final(self)@, old(self)@.materialize(env@, *e)),
        decreases e, 4nat,
    {
        let v = self.lower_expr(env, e)?;
        match &e.ty {
            ResolvedTy::Scalar(s) => {
                let f = if is_float_scalar(*s) {
                    v
                } else {
                    let wide = match scalar_cranelift_type(*s) {
                        ClTy::I64 => v,
                        _ => self.convert(Convert::Sextend64, v),
                    };
                    self.convert(Convert::FcvtFromSint, wide)
                };
                Ok(self.emit_scalar_tensor(f))
            },
            _ => Err(unsupported_msg("non-scalar in materialize_scalar_tensor")),
        }
    }

    /// Lowers a tensor operator with one scalar operand.
    #[verifier::rlimit(60)]
    #[verifier::spinoff_prover]
    fn lower_scalar_broadcast(&mut self, env: &Env, e: &TypedExpr, scalar_on_right: bool) -> (r:
        Result<Val, CodegenError>)
        ensures
            state::yields(r, final(self)@, old(self)@.scalar_broadcast(env@, *e, scalar_on_right)),
        decreases e, 1nat,
    {
        match &e.kind {
            TypedExprKind::BinOp { op, lhs, rhs } => match scalar_broadcast_builtin_name(
                *op,
                scalar_on_right,
            ) {
                None => Err(
                    unsupported_mid(
                        "scalar broadcast ",
                        op.name(),
                        if scalar_on_right {
                            " not supported"
                        } else {
                            " (reversed) not supported"
                        },
                    ),
                ),
                Some(name) => {
                    let mut handles: Vec<Val> = Vec::new();
                    let t = if scalar_on_right {
                        self.lower_expr(env, lhs)?
                    } else {
                        self.lower_expr(env, rhs)?
                    };
                    let s = if scalar_on_right {
                        self.materialize_scalar_tensor(env, rhs)?
                    } else {
                        self.materialize_scalar_tensor(env, lhs)?
                    };
                    handles.push(t);
                    handles.push(s);
                    proof {
                        assert(handles@ =~= seq![t, s]);
                    }
                    let out = self.lower_kernel_dispatch_with_handles(env, name, &handles)?;
                    self.rt1(RtSym::TensorFree, s);
                    Ok(out)
                },
            },
            _ => Err(unsupported_msg("")),
        }
    }

    /// Lowers an operator on two single-precision tensors.
    fn lower_tensor_binop(&mut self, env: &Env, e: &TypedExpr) -> (r: Result<Val, CodegenError>)
        ensures
            state::yields(r, final(self)@, old(self)@.tensor_binop(env@, *e)),
        decreases e, 1nat,
    {
        match &e.kind {
            TypedExprKind::BinOp { op, lhs, rhs } => {
                let a = self.lower_expr(env, lhs)?;
                let b = self.lower_expr(env, rhs)?;
                let out = match *op {
                    BinOp::Matmul => self.rt2(RtSym::TensorMatmul, a, b),
                    _ => match builtins::broadcast_fwd_name(*op) {
                        Some(name) => {
                            let mut args: Vec<Val> = Vec::new();
                            args.push(a);
                            args.push(b);
                            proof {
                                assert(args@ =~= seq![a, b]);
                            }
                            self.fwd_call(env, name, &args)?
                        },
                        None => {
                            return Err(
                                unsupported_mid("binop ", op.name(), " on tensors not supported"),
                            );
                        },
                    },
                };
                if e.grad_tracked {
                    match builtins::binop_to_optag(*op) {
                        Some(tag) => self.record_binop(tag, a, b, out),
                        None => {
                            return Err(
                                unsupported_mid("BinOp ", op.name(), " not supported on tape"),
                            );
                        },
                    }
                }
                Ok(out)
            },
            _ => Err(unsupported_msg("")),
        }
    }

    /// Lowers a binary operator.
    fn lower_binop(&mut self, env: &Env, e: &TypedExpr) -> (r: Result<Val, CodegenError>)
        ensures
            state::yields(r, final(self)@, old(self)@.binop(env@, *e)),
        decreases e, 2nat,
    {
        match &e.kind {
            TypedExprKind::BinOp { op, lhs, rhs } => match (&lhs.ty, &rhs.ty) {
                (ResolvedTy::Tensor { dtype: ld }, ResolvedTy::Tensor { dtype: rd }) => {
                    if *ld == ScalarTy::F32 && *rd == ScalarTy::F32 {
                        self.lower_tensor_binop(env, e)
                    } else {
                        Err(unsupported_msg("non-f32 tensor BinOp not yet supported"))
                    }
                },
                (ResolvedTy::Tensor { dtype: ScalarTy::F32 }, ResolvedTy::Scalar(ScalarTy::F32)) => {
                    self.lower_scalar_broadcast(env, e, true)
                },
                (ResolvedTy::Scalar(ScalarTy::F32), ResolvedTy::Tensor { dtype: ScalarTy::F32 }) => {
                    self.lower_scalar_broadcast(env, e, false)
                },
                (ResolvedTy::Scalar(s), _) => {
                    let l = self.lower_expr(env, lhs)?;
                    let r = self.lower_expr(env, rhs)?;
                    self.lower_scalar_binop(*op, l, r, *s)
                },
                (ResolvedTy::Bool, _) => {
                    let l = self.lower_expr(env, lhs)?;
                    let r = self.lower_expr(env, rhs)?;
                    self.lower_bool_binop(*op, l, r)
                },
                _ => {
                    let t = lhs.ty.render();
                    Err(unsupported("BinOp on ", t.as_str()))
                },
            },
            _ => Err(unsupported_msg("")),
        }
    }

    /// Lowers a unary operator.
    fn lower_unary(&mut self, env: &Env, op: UnaryOp, operand: &TypedExpr) -> (r: Result<
        Val,
        CodegenError,
    >)
        ensures
            state::yields(r, final(self)@, old(self)@.unary(env@, op, *operand)),
        decreases operand, 4nat,
    {
        let v = self.lower_expr(env, operand)?;
        match op {
            UnaryOp::Neg => match &operand.ty {
                ResolvedTy::Tensor { dtype } => {
                    let minus_one = self.val(Inst::F32Const { bits: 0xbf80_0000 });
                    let s = self.emit_scalar_tensor(minus_one);
                    let mut handles: Vec<Val> = Vec::new();
                    handles.push(v);
                    handles.push(s);
                    proof {
                        assert(handles@ =~= seq![v, s]);
                    }
                    let out = self.lower_kernel_dispatch_with_handles(
                        env,
                        "malus_mul_scalar",
                        &handles,
                    )?;
                    self.rt1(RtSym::TensorFree, s);
                    if operand.grad_tracked {
                        self.record_unary(OPTAG_NEG, v, out);
                    }
                    Ok(out)
                },
                ResolvedTy::Scalar(s) => {
                    let conv = if is_float_scalar(*s) {
                        Convert::Fneg
                    } else {
                        Convert::Ineg
                    };
                    Ok(self.convert(conv, v))
                },
                _ => Err(unsupported_msg("Neg on non-scalar")),
            },
            UnaryOp::Not => {
                let one = self.iconst(ClTy::I8, 1);
                Ok(self.arith(Arith::Bxor, v, one))
            },
        }
    }

    /// Prints one argument.
    fn emit_print_value(&mut self, env: &Env, arg: &TypedExpr) -> (r: Result<(), CodegenError>)
        ensures
            state::completes(r, final(self)@, old(self)@.print_value(env@, *arg)),
        decreases arg, 4nat,
    {
        match self.lower_expr(env, arg) {
            Ok(v) => self.print_typed(v, &arg.ty),
            Err(x) => Err(x),
        }
    }

    fn print_args(&mut self, env: &Env, args: &Vec<TypedExpr>) -> (r: Result<(), CodegenError>)
        ensures
            state::completes(r, final(self)@, old(self)@.print_args(env@, args@, 0)),
        decreases args, args@.len(),
    {
        let mut i: usize = 0;
        while i < args.len()
            invariant
                i <= args.len(),
                old(self)@.print_args(env@, args@, 0) == self@.print_args(env@, args@, i as nat),
            decreases args.len() - i,
        {
            match self.emit_print_value(env, &args[i]) {
                Ok(_) => {},
                Err(x) => {
                    return Err(x);
                },
            }
            i = i + 1;
        }
        Ok(())
    }

    fn print_segments(&mut self, env: &Env, segs: &Vec<FormatSegment>, args: &Vec<TypedExpr>) -> (r:
        Result<(), CodegenError>)
        ensures
            state::completes(
                r,
                final(self)@,
                old(self)@.print_segments(env@, segments::segment_views(segs@), 0, args@, 1),
            ),
        decreases args, segs@.len(),
    {
        let ghost views = segments::segment_views(segs@);
        let mut k: usize = 0;
        let mut next: usize = 1;
        while k < segs.len()
            invariant
                k <= segs.len(),
                1 <= next <= k + 1,
                views == segments::segment_views(segs@),
                old(self)@.print_segments(env@, views, 0, args@, 1) == self@.print_segments(
                    env@,
                    views,
                    k as nat,
                    args@,
                    next as nat,
                ),
            decreases segs.len() - k,
        {
            proof {
                assert(views[k as int] == segs@[k as int]@);
            }
            match &segs[k] {
                FormatSegment::Literal(text) => self.print_text(text.as_str()),
                FormatSegment::Placeholder => {
                    if next >= args.len() {
                        return Err(missing_arg());
                    }
                    match self.emit_print_value(env, &args[next]) {
                        Ok(_) => {},
                        Err(x) => {
                            return Err(x);
                        },
                    }
                    next = next + 1;
                },
            }
            k = k + 1;
        }
        Ok(())
    }

    /// Lowers `print` and `println`.
    fn lower_print(&mut self, env: &Env, newline: bool, args: &Vec<TypedExpr>) -> (r: Result<
        Val,
        CodegenError,
    >)
        ensures
            state::yields(r, final(self)@, old(self)@.print_call(env@, newline, args@)),
        decreases args, args@.len() + scheme_expr::format_of(args@).len() + 1,
    {
        let fmt: Option<Vec<FormatSegment>> = if args.len() > 0 {
            match &args[0].kind {
                TypedExprKind::Lit(Lit::Str(f)) => Some(segments::parse_format_string(f.as_str())),
                _ => None,
            }
        } else {
            None
        };
        match fmt {
            Some(segs) => {
                proof {
                    assert(segments::segment_views(segs@) == scheme_expr::format_of(args@));
                }
                self.print_segments(env, &segs, args)?
            },
            None => self.print_args(env, args)?,
        }
        if newline {
            self.print_text("\n");
        }
        Ok(self.iconst(ClTy::I64, 0))
    }

    /// Lowers `zeros`, `ones` and `randn`.
    fn lower_zeros_ones(&mut self, env: &Env, sym: RtSym, args: &Vec<TypedExpr>) -> (r: Result<
        Val,
        CodegenError,
    >)
        ensures
            state::yields(r, final(self)@, old(self)@.shaped_alloc(env@, sym, args@)),
        decreases args, args@.len() + 1,
    {
        let s = self.slot(stack_size_of(8, args.len()), 3);
        self.lower_spill(env, args, 0, s)?;
        let shape = self.stack_addr(s);
        let n = self.iconst(ClTy::Ptr, args.len() as i64);
        Ok(self.rt2(sym, shape, n))
    }

    /// Lowers a runtime call on the first `n` arguments.
    fn lower_rt_args(&mut self, env: &Env, sym: RtSym, args: &Vec<TypedExpr>, n: usize) -> (r: Result<
        Val,
        CodegenError,
    >)
        ensures
            state::yields(r, final(self)@, old(self)@.rt_args(env@, sym, args@, n as nat)),
        decreases args, n + 1,
    {
        let vs = self.lower_list(env, args, n)?;
        Ok(self.rt(sym, &vs))
    }

    /// Lowers a runtime call on one argument that has no result.
    fn lower_unit_call(&mut self, env: &Env, sym: RtSym, args: &Vec<TypedExpr>) -> (r: Result<
        Val,
        CodegenError,
    >)
        ensures
            state::yields(r, final(self)@, old(self)@.unit_call(env@, sym, args@)),
        decreases args, 3nat,
    {
        self.lower_rt_args(env, sym, args, 1)?;
        Ok(self.iconst(ClTy::I64, 0))
    }

    /// Lowers the sum over a whole tensor.
    fn lower_sum_all(&mut self, env: &Env, args: &Vec<TypedExpr>, grad: bool) -> (r: Result<
        Val,
        CodegenError,
    >)
        ensures
            state::yields(r, final(self)@, old(self)@.sum_all(env@, args@, grad)),
        decreases args, 5nat,
    {
        let vs = self.lower_list(env, args, 1)?;
        let out = self.fwd_call(env, "__reduce_all_sum_fwd", &vs)?;
        if grad {
            self.record_unary(OPTAG_SUM, vs[0], out);
        }
        Ok(out)
    }

    /// Lowers a reduction along an axis.
    fn lower_axis_reduction(&mut self, env: &Env, b: Builtin, args: &Vec<TypedExpr>, grad: bool) -> (r:
        Result<Val, CodegenError>)
        ensures
            state::yields(r, final(self)@, old(self)@.axis_reduction(env@, b, args@, grad)),
        decreases args, 5nat,
    {
        let (name, tag) = builtins::axis_fwd_name(b);
        let vs = self.lower_list(env, args, 3)?;
        let out = self.fwd_call(env, name, &vs)?;
        if grad {
            self.record_five(RtSym::TapeRecordReduce, tag, vs[0], out, vs[1], vs[2]);
        }
        Ok(out)
    }

    /// Lowers `softmax`.
    fn lower_softmax(&mut self, env: &Env, args: &Vec<TypedExpr>, grad: bool) -> (r: Result<
        Val,
        CodegenError,
    >)
        ensures
            state::yields(r, final(self)@, old(self)@.softmax(env@, args@, grad)),
        decreases args, 5nat,
    {
        let vs = self.lower_list(env, args, 2)?;
        let out = self.fwd_call(env, "__softmax_fwd", &vs)?;
        if grad {
            let zero = self.iconst(ClTy::I64, 0);
            self.record_five(RtSym::TapeRecordReduce, OPTAG_SOFTMAX, vs[0], out, vs[1], zero);
        }
        Ok(out)
    }

    /// Lowers `layernorm`.
    fn lower_layernorm(&mut self, env: &Env, args: &Vec<TypedExpr>, grad: bool) -> (r: Result<
        Val,
        CodegenError,
    >)
        ensures
            state::yields(r, final(self)@, old(self)@.layernorm(env@, args@, grad)),
        decreases args, 5nat,
    {
        let vs = self.lower_list(env, args, 2)?;
        let pair = self.fwd_call(env, "__layernorm_fwd", &vs)?;
        let normed = self.load(ClTy::I64, pair, 8);
        let variance = self.load(ClTy::I64, pair, 16);
        self.rt1(RtSym::AggregateRelease, pair);
        if grad {
            self.record_five(
                RtSym::TapeRecordLayernorm,
                OPTAG_LAYERNORM,
                vs[0],
                normed,
                variance,
                vs[1],
            );
        }
        Ok(normed)
    }

    /// Lowers `gelu`.
    fn lower_gelu(&mut self, env: &Env, args: &Vec<TypedExpr>, grad: bool) -> (r: Result<
        Val,
        CodegenError,
    >)
        ensures
            state::yields(r, final(self)@, old(self)@.gelu(env@, args@, grad)),
        decreases args, 5nat,
    {
        let vs = self.lower_list(env, args, 1)?;
        let out = self.fwd_call(env, "__gelu_fwd", &vs)?;
        if grad {
            self.record_unary(OPTAG_GELU, vs[0], out);
        }
        Ok(out)
    }

    /// Lowers `embedding`.
    fn lower_embedding(&mut self, env: &Env, args: &Vec<TypedExpr>, grad: bool) -> (r: Result<
        Val,
        CodegenError,
    >)
        ensures
            state::yields(r, final(self)@, old(self)@.embedding(env@, args@, grad)),
        decreases args, 5nat,
    {
        let vs = self.lower_list(env, args, 2)?;
        let out = self.fwd_call(env, "__embedding_fwd", &vs)?;
        if grad {
            let tag = self.iconst(ClTy::I32, OPTAG_EMBEDDING as i64);
            self.rt4(RtSym::TapeRecordEmbedding, tag, vs[0], vs[1], out);
        }
        Ok(out)
    }

    /// Lowers `cross_entropy`.
    fn lower_cross_entropy(&mut self, env: &Env, args: &Vec<TypedExpr>, grad: bool) -> (r: Result<
        Val,
        CodegenError,
    >)
        ensures
            state::yields(r, final(self)@, old(self)@.cross_entropy(env@, args@, grad)),
        decreases args, 5nat,
    {
        let vs = self.lower_list(env, args, 2)?;
        let pair = self.fwd_call(env, "__cross_entropy_fwd", &vs)?;
        let loss = self.load(ClTy::I64, pair, 8);
        let probs = self.load(ClTy::I64, pair, 16);
        self.rt1(RtSym::AggregateRelease, pair);
        if grad {
            self.record_five(
                RtSym::TapeRecordCrossEntropy,
                OPTAG_CROSS_ENTROPY,
                vs[0],
                loss,
                probs,
                vs[1],
            );
        } else {
            self.rt1(RtSym::TensorFree, probs);
        }
        Ok(loss)
    }

    fn lower_dim_args(&mut self, env: &Env, args: &Vec<TypedExpr>) -> (r: Result<
        (Val, Val),
        CodegenError,
    >)
        ensures
            yields_pair(r, final(self)@, old(self)@.dim_args(env@, args@)),
        decreases args, args@.len() + 1,
    {
        if args.len() <= 1 {
            Ok(self.null_dims())
        } else {
            let n: usize = args.len() - 1;
            let s = self.slot(stack_size_of(8, n), 3);
            match self.lower_spill(env, args, 1, s) {
                Ok(_) => {},
                Err(x) => {
                    return Err(x);
                },
            }
            let p = self.stack_addr(s);
            let c = self.iconst(ClTy::Ptr, n as i64);
            Ok((p, c))
        }
    }

    fn transpose_2d(&mut self, env: &Env, x: Val, grad: bool) -> (r: Result<Val, CodegenError>)
        ensures
            state::yields(r, final(self)@, old(self)@.transpose_2d(env@, x, grad)),
    {
        let mut args: Vec<Val> = Vec::new();
        args.push(x);
        proof {
            assert(args@ =~= seq![x]);
        }
        let out = self.fwd_call(env, "__transpose_2d_fwd", &args)?;
        if grad {
            let (p, n) = self.null_dims();
            self.record_perm(x, out, p, n);
        }
        Ok(out)
    }

    fn permute_3d(&mut self, env: &Env, vs: &Vec<Val>, grad: bool) -> (r: Result<Val, CodegenError>)
        requires
            vs@.len() == 4,
        ensures
            state::yields(r, final(self)@, old(self)@.permute_3d(env@, vs@, grad)),
    {
        let out = self.fwd_call(env, "__permute_3d_fwd", vs)?;
        if grad {
            let s = self.slot(24, 3);
            self.stack_store(vs[1], s, 0);
            self.stack_store(vs[2], s, 8);
            self.stack_store(vs[3], s, 16);
            let dims = self.stack_addr(s);
            let n = self.iconst(ClTy::Ptr, 3);
            self.record_perm(vs[0], out, dims, n);
        }
        Ok(out)
    }

    /// Lowers `reshape`, `transpose` and `permute`.
    fn lower_shape_op(&mut self, env: &Env, b: Builtin, args: &Vec<TypedExpr>, grad: bool) -> (r:
        Result<Val, CodegenError>)
        ensures
            state::yields(r, final(self)@, old(self)@.shape_op(env@, b, args@, grad)),
        decreases args, args@.len() + 6,
    {
        if b == Builtin::Permute && args.len() == 4 {
            let vs = self.lower_list(env, args, 4)?;
            self.permute_3d(env, &vs, grad)
        } else {
            let vs = self.lower_list(env, args, 1)?;
            let x = vs[0];
            if b == Builtin::Transpose && args.len() == 1 {
                self.transpose_2d(env, x, grad)
            } else {
                let (dims, n) = match self.lower_dim_args(env, args) {
                    Ok(p) => p,
                    Err(e) => {
                        return Err(e);
                    },
                };
                let sym = if b == Builtin::Reshape {
                    RtSym::TensorReshape
                } else {
                    RtSym::TensorPermute
                };
                let out = self.rt3(sym, x, dims, n);
                if grad {
                    if b == Builtin::Reshape {
                        self.record_unary(OPTAG_RESHAPE, x, out);
                    } else {
                        self.record_perm(x, out, dims, n);
                    }
                }
                Ok(out)
            }
        }
    }

    /// Lowers `zero_grad`.
    fn lower_zero_grad(&mut self, env: &Env, args: &Vec<TypedExpr>) -> (r: Result<Val, CodegenError>)
        ensures
            state::yields(r, final(self)@, old(self)@.zero_grad(env@, args@)),
        decreases args, args@.len() + 1,
    {
        if args.len() == 0 {
            Ok(self.iconst(ClTy::I64, 0))
        } else {
            let s = self.slot(stack_size_of(8, args.len()), 3);
            self.lower_spill(env, args, 0, s)?;
            let p = self.stack_addr(s);
            let n = self.iconst(ClTy::Ptr, args.len() as i64);
            self.rt2(RtSym::TapeZeroGrad, p, n);
            Ok(self.iconst(ClTy::I64, 0))
        }
    }

    /// Lowers a call of a built-in function other than printing.
    fn lower_builtin(&mut self, env: &Env, b: Builtin, args: &Vec<TypedExpr>, grad: bool) -> (r: Result<
        Val,
        CodegenError,
    >)
        ensures
            state::yields(r, final(self)@, old(self)@.builtin_call(env@, b, args@, grad)),
        decreases args, args@.len() + 10,
    {
        match b {
            Builtin::Print | Builtin::Println => Err(unsupported_msg("")),
            Builtin::Zeros => self.lower_zeros_ones(env, RtSym::TensorAllocZerosGpu, args),
            Builtin::Ones => self.lower_zeros_ones(env, RtSym::TensorAllocOnesGpu, args),
            Builtin::Randn => self.lower_zeros_ones(env, RtSym::TensorRandn, args),
            Builtin::Reshape | Builtin::Transpose | Builtin::Permute => self.lower_shape_op(
                env,
                b,
                args,
                grad,
            ),
            Builtin::Sum => if args.len() == 1 {
                self.lower_sum_all(env, args, grad)
            } else {
                self.lower_axis_reduction(env, b, args, grad)
            },
            Builtin::Mean | Builtin::Max | Builtin::Variance => self.lower_axis_reduction(
                env,
                b,
                args,
                grad,
            ),
            Builtin::Softmax => self.lower_softmax(env, args, grad),
            Builtin::Layernorm => self.lower_layernorm(env, args, grad),
            Builtin::Gelu => self.lower_gelu(env, args, grad),
            Builtin::Embedding => self.lower_embedding(env, args, grad),
            Builtin::CrossEntropy => self.lower_cross_entropy(env, args, grad),
            Builtin::CausalMask => self.lower_rt_args(env, RtSym::TensorCausalMask, args, 1),
            Builtin::Variable => {
                let vs = self.lower_list(env, args, 1)?;
                let handle = vs[0];
                self.rt1(RtSym::TensorRetain, handle);
                self.rt1(RtSym::TapeRegisterLeaf, handle);
                Ok(handle)
            },
            Builtin::Backward => self.lower_unit_call(env, RtSym::Backward, args),
            Builtin::ZeroGrad => self.lower_zero_grad(env, args),
            Builtin::TensorPrint => self.lower_unit_call(env, RtSym::TensorPrint, args),
            Builtin::ReadFile => self.lower_rt_args(env, RtSym::ReadFile, args, 1),
            Builtin::StrLen => self.lower_rt_args(env, RtSym::StrLen, args, 1),
            Builtin::Len => {
                let vs = self.lower_list(env, args, 1)?;
                Ok(self.load(ClTy::I64, vs[0], 8))
            },
            Builtin::StrCharAt => self.lower_rt_args(env, RtSym::StrCharAt, args, 2),
            Builtin::StrFromChar => self.lower_rt_args(env, RtSym::StrFromChar, args, 1),
            Builtin::RandUniform => self.lower_rt_args(env, RtSym::RandUniform, args, 0),
            Builtin::RecordDiff => self.lower_unit_call(env, RtSym::RecordDiff, args),
            Builtin::RandInt => self.lower_rt_args(env, RtSym::RandInt, args, 1),
            Builtin::BufferI32 => self.lower_rt_args(env, RtSym::BufferI32, args, 1),
            Builtin::Freeze => self.lower_rt_args(env, RtSym::BufferFreezeI32, args, 1),
        }
    }

    /// Lowers a call of a function of the program.
    fn lower_user_call(&mut self, env: &Env, callee: &String, args: &Vec<TypedExpr>) -> (r: Result<
        Val,
        CodegenError,
    >)
        ensures
            state::yields(r, final(self)@, old(self)@.user_call(env@, callee@, args@)),
        decreases args, args@.len() + 1,
    {
        let f = match env.fns.get(callee.as_str()) {
            Some(f) => *f,
            None => {
                return Err(unsupported("unknown callee: ", callee.as_str()));
            },
        };
        let vs = self.lower_list(env, args, args.len())?;
        let v = self.call(
            crate::codegen_cpu::inst::Callee::Function { index: f.index, ret: f.ret },
            &vs,
        );
        match f.ret {
            None => Ok(self.iconst(ClTy::I64, 0)),
            Some(_) => Ok(v),
        }
    }

    /// Lowers a call of a kernel by its name.
    #[verifier::rlimit(60)]
    #[verifier::spinoff_prover]
    fn lower_kernel_callee(
        &mut self,
        env: &Env,
        callee: &String,
        args: &Vec<TypedExpr>,
        grad: bool,
    ) -> (r: Result<Val, CodegenError>)
        ensures
            state::yields(r, final(self)@, old(self)@.kernel_callee(env@, callee@, args@, grad)),
        decreases args, args@.len() + 5,
    {
        if !grad {
            return self.lower_kernel_dispatch(env, callee.as_str(), args);
        }
        let tag: i32 = match builtins::unary_builtin_to_optag(callee.as_str()) {
            Some(tag) => tag,
            None => {
                return Err(
                    unsupported_mid("no OpTag for grad-tracked builtin '", callee.as_str(), "'"),
                );
            },
        };
        let vs = self.lower_list(env, args, 1)?;
        let out = self.lower_kernel_dispatch_with_handles(env, callee.as_str(), &vs)?;
        self.record_unary(tag, vs[0], out);
        Ok(out)
    }

    /// Lowers a call.
    fn lower_call(&mut self, env: &Env, callee: &String, args: &Vec<TypedExpr>, grad: bool) -> (r:
        Result<Val, CodegenError>)
        ensures
            state::yields(r, final(self)@, old(self)@.call_expr(env@, callee@, args@, grad)),
        decreases args, args@.len() + scheme_expr::format_of(args@).len() + 20,
    {
        match builtins::builtin_named(callee.as_str()) {
            Some(Builtin::Print) => self.lower_print(env, false, args),
            Some(Builtin::Println) => self.lower_print(env, true, args),
            other => if env.kernels.contains_key(callee.as_str()) {
                self.lower_kernel_callee(env, callee, args, grad)
            } else {
                match other {
                    Some(b) => self.lower_builtin(env, b, args, grad),
                    None => self.lower_user_call(env, callee, args),
                }
            },
        }
    }

    /// Lowers an element read.
    fn lower_index(&mut self, env: &Env, e: &TypedExpr) -> (r: Result<Val, CodegenError>)
        ensures
            state::yields(r, final(self)@, old(self)@.index_expr(env@, *e)),
        decreases e, 2nat,
    {
        match &e.kind {
            TypedExprKind::Index { base, indices } => match &base.kind {
                TypedExprKind::FieldAccess { base: inner, field } => {
                    if (same_text(field.as_str(), "shape") || same_text(field.as_str(), "strides"))
                        && inner.ty.is_tensor() {
                        let handle = self.lower_expr(env, inner)?;
                        let vs = self.lower_list(env, indices, 1)?;
                        Ok(self.rt2(RtSym::TensorDim, handle, vs[0]))
                    } else {
                        self.lower_index_value(env, e)
                    }
                },
                _ => self.lower_index_value(env, e),
            },
            _ => Err(unsupported_msg("")),
        }
    }

    fn lower_index_value(&mut self, env: &Env, e: &TypedExpr) -> (r: Result<Val, CodegenError>)
        ensures
            state::yields(r, final(self)@, old(self)@.index_value(env@, *e)),
        decreases e, 1nat,
    {
        match &e.kind {
            TypedExprKind::Index { base, indices } => {
                if !(base.ty.is_array() || base.ty.is_list() || base.ty.is_tensor() || matches!(
                    base.ty,
                    ResolvedTy::Buffer { .. }
                )) {
                    return Err(
                        unsupported_msg(
                            "Index: only Array, Buffer, Tensor<f32>, or List indexing is supported",
                        ),
                    );
                }
                let ptr = self.lower_expr(env, base)?;
                let vs = self.lower_list(env, indices, 1)?;
                let index = vs[0];
                match &base.ty {
                    ResolvedTy::Buffer { dtype } => Ok(
                        self.rt2(RtSym::BufferGetI32, ptr, index),
                    ),
                    ResolvedTy::Tensor { dtype } => Ok(
                        self.rt2(RtSym::TensorGetF32, ptr, index),
                    ),
                    _ => {
                        let header: i64 = if base.ty.is_array() {
                            0
                        } else {
                            16
                        };
                        let addr = self.slot_addr(ptr, index, header);
                        match cranelift_type(&e.ty) {
                            None => Err(unsupported_msg("Index: unit element type")),
                            Some(t) => Ok(self.load(t, addr, 0)),
                        }
                    },
                }
            },
            _ => Err(unsupported_msg("")),
        }
    }

    /// Lowers a field read.
    fn lower_field_access(
        &mut self,
        env: &Env,
        base: &TypedExpr,
        field: &String,
        ty: &ResolvedTy,
    ) -> (r: Result<Val, CodegenError>)
        ensures
            state::yields(r, final(self)@, old(self)@.field_access(env@, *base, field@, *ty)),
        decreases base, 4nat,
    {
        let f = field.as_str();
        let is_len = same_text(f, "len");
        let is_ndim = same_text(f, "ndim");
        let is_dims = same_text(f, "shape") || same_text(f, "strides");
        let is_data = same_text(f, "data");
        let is_grad = same_text(f, "grad");
        if base.ty.is_tensor() && (is_len || is_ndim || is_dims || is_data || is_grad) {
            let handle = self.lower_expr(env, base)?;
            if is_len {
                Ok(self.rt1(RtSym::TensorLen, handle))
            } else if is_ndim {
                Ok(self.rt1(RtSym::TensorNdim, handle))
            } else if is_dims {
                Ok(self.iconst(ClTy::I64, 0))
            } else if is_data {
                Ok(handle)
            } else {
                Ok(self.rt1(RtSym::TapeGetGrad, handle))
            }
        } else {
            match &base.ty {
                ResolvedTy::Struct { name, fields } => match field_position(fields, f) {
                    None => Err(unsupported_mid("struct has no field '", f, "'")),
                    Some(i) => {
                        let ptr = self.lower_expr(env, base)?;
                        match cranelift_type(ty) {
                            None => Err(unsupported_msg("unit field access")),
                            Some(t) => Ok(self.load(t, ptr, slot_offset_of(8, i))),
                        }
                    },
                },
                _ => Err(unsupported_mid("FieldAccess .", f, " not yet supported")),
            }
        }
    }

    fn lower_dims_slot(&mut self, env: &Env, e: &TypedExpr) -> (r: Result<StackSlot, CodegenError>)
        ensures
            yields_slot(r, final(self)@, old(self)@.dims_slot(env@, *e)),
        decreases e, 4nat,
    {
        let s = self.slot(24, 3);
        match self.lower_expr(env, e) {
            Ok(arr) => {
                self.copy_dims(arr, s);
                Ok(s)
            },
            Err(x) => Err(x),
        }
    }

    fn lower_launch_shape(&mut self, env: &Env, out_shape: &Option<Box<TypedExpr>>) -> (r: Result<
        (Val, Val),
        CodegenError,
    >)
        ensures
            yields_pair(r, final(self)@, old(self)@.launch_shape(env@, *out_shape)),
        decreases out_shape, 5nat,
    {
        match out_shape {
            None => Ok(self.null_dims()),
            Some(os) => {
                let arr = match self.lower_expr(env, os) {
                    Ok(arr) => arr,
                    Err(x) => {
                        return Err(x);
                    },
                };
                let s = self.slot(24, 3);
                self.copy_dims(arr, s);
                let p = self.stack_addr(s);
                let rank: usize = match &os.kind {
                    TypedExprKind::ArrayLiteral { elements } => launch_rank(elements),
                    _ => 3,
                };
                let n = self.iconst(ClTy::Ptr, rank as i64);
                Ok((p, n))
            },
        }
    }

    fn lower_uniforms(&mut self, env: &Env, args: &Vec<TypedExpr>, s: StackSlot) -> (r: Result<
        (),
        CodegenError,
    >)
        ensures
            state::completes(r, final(self)@, old(self)@.uniforms(env@, args@, 0, s)),
        decreases args, args@.len(),
    {
        let mut i: usize = 0;
        while i < args.len()
            invariant
                i <= args.len(),
                old(self)@.uniforms(env@, args@, 0, s) == self@.uniforms(env@, args@, i as nat, s),
            decreases args.len() - i,
        {
            let v = match self.lower_expr(env, &args[i]) {
                Ok(v) => v,
                Err(x) => {
                    return Err(x);
                },
            };
            match &args[i].ty {
                ResolvedTy::Scalar(t) => {
                    let v = if is_float_scalar(*t) {
                        v
                    } else {
                        self.convert(Convert::Ireduce32, v)
                    };
                    let offset: i32 = #[verifier::truncate]
                    ((4 * (i as i128)) as i32);
                    self.stack_store(v, s, offset);
                },
                _ => {
                    return Err(unsupported_msg("KernelLaunch: scalar_arg is not a scalar"));
                },
            }
            i = i + 1;
        }
        Ok(())
    }

    fn lower_uniform_block(&mut self, env: &Env, args: &Vec<TypedExpr>) -> (r: Result<
        (Val, Val),
        CodegenError,
    >)
        ensures
            yields_pair(r, final(self)@, old(self)@.uniform_block(env@, args@)),
        decreases args, args@.len() + 1,
    {
        if args.len() == 0 {
            Ok(self.null_dims())
        } else {
            let size: u32 = stack_size_of(4, args.len());
            let s = self.slot(
                if size >= 4 {
                    size
                } else {
                    4
                },
                2,
            );
            match self.lower_uniforms(env, args, s) {
                Ok(_) => {},
                Err(x) => {
                    return Err(x);
                },
            }
            let p = self.stack_addr(s);
            let n = self.iconst(ClTy::Ptr, size as i64);
            Ok((p, n))
        }
    }

    fn lower_launch_handles(&mut self, env: &Env, args: &Vec<TypedExpr>) -> (r: Result<
        StackSlot,
        CodegenError,
    >)
        ensures
            yields_slot(r, final(self)@, old(self)@.launch_handles(env@, args@)),
        decreases args, args@.len() + 1,
    {
        if args.len() == 0 {
            Ok(self.slot(8, 3))
        } else {
            let s = self.slot(stack_size_of(8, args.len()), 3);
            match self.lower_spill(env, args, 0, s) {
                Ok(_) => Ok(s),
                Err(x) => Err(x),
            }
        }
    }

    /// Lowers an explicit kernel launch.
    #[verifier::rlimit(60)]
    #[verifier::spinoff_prover]
    fn lower_kernel_launch(&mut self, env: &Env, e: &TypedExpr) -> (r: Result<Val, CodegenError>)
        ensures
            state::yields(r, final(self)@, old(self)@.kernel_launch(env@, *e)),
        decreases e, 2nat,
    {
        match &e.kind {
            TypedExprKind::KernelLaunch {
                kernel,
                grid,
                tg,
                out_shape,
                tensor_args,
                scalar_args,
            } => {
                let id: u64 = match env.kernels.get(kernel.as_str()) {
                    Some(id) => *id,
                    None => {
                        return Err(CodegenError::UnknownKernel { name: kernel.clone() });
                    },
                };
                let handles_slot = self.lower_launch_handles(env, tensor_args)?;
                let grid_slot = self.lower_dims_slot(env, grid)?;
                let tg_slot = self.lower_dims_slot(env, tg)?;
                let (out_ptr, out_rank) = self.lower_launch_shape(env, out_shape)?;
                let tag: i32 = match &e.ty {
                    ResolvedTy::Tensor { dtype } => dtype_tag(*dtype),
                    _ => 0,
                };
                let dt = self.iconst(ClTy::I32, tag as i64);
                let (uni_ptr, uni_size) = self.lower_uniform_block(env, scalar_args)?;
                let id_val = self.iconst(ClTy::I64, id as i64);
                let handles = self.stack_addr(handles_slot);
                let count = self.iconst(ClTy::Ptr, tensor_args.len() as i64);
                let grid_ptr = self.stack_addr(grid_slot);
                let tg_ptr = self.stack_addr(tg_slot);
                let mut args: Vec<Val> = Vec::new();
                args.push(id_val);
                args.push(handles);
                args.push(count);
                args.push(grid_ptr);
                args.push(tg_ptr);
                args.push(out_ptr);
                args.push(out_rank);
                args.push(dt);
                args.push(uni_ptr);
                args.push(uni_size);
                proof {
                    assert(args@ =~= seq![
                        id_val,
                        handles,
                        count,
                        grid_ptr,
                        tg_ptr,
                        out_ptr,
                        out_rank,
                        dt,
                        uni_ptr,
                        uni_size,
                    ]);
                }
                Ok(self.rt(RtSym::KernelDispatchV2, &args))
            },
            _ => Err(unsupported_msg("")),
        }
    }
}

} // verus!
