//! Code generated for expressions refers only backwards.

use crate::codegen_cpu::builtins;
use crate::codegen_cpu::builtins::{
    Builtin, OPTAG_CROSS_ENTROPY, OPTAG_GELU, OPTAG_LAYERNORM, OPTAG_NEG,
    OPTAG_RESHAPE, OPTAG_SOFTMAX, OPTAG_SUM, OPTAG_TRANSPOSE,
};
use crate::codegen_cpu::code_laws;
use crate::codegen_cpu::inst::{Arith, ClTy, Convert, Inst, StackSlot, Val};
use crate::codegen_cpu::scheme_expr;
use crate::codegen_cpu::segments::Segment;
use crate::codegen_cpu::state;
use crate::codegen_cpu::state::{EnvView, St};
use crate::codegen_cpu::symbols::RtSym;
use crate::typed::{BinOp, Lit, ResolvedTy, ScalarTy, TypedExpr, TypedExprKind, UnaryOp};
use vstd::prelude::*;

verus! {

proof fn lit_ok(st: St, l: Lit, ty: ResolvedTy, fns: nat)
    requires
        st.ok(fns),
    ensures
        st.gives(st.lit(l, ty), fns),
{
    broadcast use code_laws::group_code;

}

proof fn scalar_binop_ok(st: St, op: BinOp, l: Val, r: Val, s: ScalarTy, fns: nat)
    requires
        st.ok(fns),
        st.has_val(l),
        st.has_val(r),
    ensures
        st.lowers(st.scalar_binop(op, l, r, s), fns),
{
    broadcast use code_laws::group_code;

}

proof fn bool_binop_ok(st: St, op: BinOp, l: Val, r: Val, fns: nat)
    requires
        st.ok(fns),
        st.has_val(l),
        st.has_val(r),
    ensures
        st.lowers(st.bool_binop(op, l, r), fns),
{
    broadcast use code_laws::group_code;

}

proof fn scalar_tensor_ok(st: St, f: Val, fns: nat)
    requires
        st.ok(fns),
        st.has_val(f),
    ensures
        st.gives(st.scalar_tensor(f), fns),
{
    broadcast use code_laws::group_code;

}

proof fn fwd_call_ok(st: St, env: EnvView, name: Seq<char>, args: Seq<Val>, fns: nat)
    requires
        st.ok(fns),
        code_laws::sound_env(env, fns),
        forall|j: int| 0 <= j < args.len() ==> st.has_val(#[trigger] args[j]),
    ensures
        st.lowers(st.fwd_call(env, name, args), fns),
{
    broadcast use code_laws::group_code;

}

proof fn dispatch_slot_ok(st: St, id: u64, s: StackSlot, n: nat, fns: nat)
    requires
        st.ok(fns),
        st.has_slot(s),
    ensures
        st.gives(st.dispatch_slot(id, s, n), fns),
{
    broadcast use code_laws::group_code;

}

proof fn spill_handles_ok(st: St, s: StackSlot, handles: Seq<Val>, i: nat, fns: nat)
    requires
        st.ok(fns),
        st.has_slot(s),
        forall|j: int| 0 <= j < handles.len() ==> st.has_val(#[trigger] handles[j]),
    ensures
        st.leads(st.spill_handles(s, handles, i), fns),
    decreases handles.len() - i,
{
    broadcast use code_laws::group_code;

    if i >= handles.len() {
        code_laws::grows_same(st);
    } else {
        assert(st.has_val(handles[i as int]));
        let next = st.stack_store(handles[i as int], s, state::slot_offset(0, i));
        assert forall|j: int| 0 <= j < handles.len() implies next.has_val(
            #[trigger] handles[j],
        ) by {
            assert(st.has_val(handles[j]));
        }
        spill_handles_ok(next, s, handles, i + 1, fns);
    }
}

proof fn dispatch_handles_ok(st: St, env: EnvView, name: Seq<char>, handles: Seq<Val>, fns: nat)
    requires
        st.ok(fns),
        forall|j: int| 0 <= j < handles.len() ==> st.has_val(#[trigger] handles[j]),
    ensures
        st.lowers(st.dispatch_handles(env, name, handles), fns),
{
    broadcast use code_laws::group_code;

    if env.kernels.contains_key(name) {
        let (mid, s) = st.slot(state::stack_size(8, handles.len()), 3);
        assert forall|j: int| 0 <= j < handles.len() implies mid.has_val(
            #[trigger] handles[j],
        ) by {
            assert(st.has_val(handles[j]));
        }
        spill_handles_ok(mid, s, handles, 0, fns);
        let full = mid.spill_handles(s, handles, 0);
        dispatch_slot_ok(full, env.kernels[name], s, handles.len(), fns);
    }
}

proof fn record_unary_ok(st: St, tag: i32, x: Val, out: Val, fns: nat)
    requires
        st.ok(fns),
        st.has_val(x),
        st.has_val(out),
    ensures
        st.leads(st.record_unary(tag, x, out), fns),
{
    broadcast use code_laws::group_code;

}

proof fn record_binop_ok(st: St, tag: i32, a: Val, b: Val, out: Val, fns: nat)
    requires
        st.ok(fns),
        st.has_val(a),
        st.has_val(b),
        st.has_val(out),
    ensures
        st.leads(st.record_binop(tag, a, b, out), fns),
{
    broadcast use code_laws::group_code;

}

proof fn record_five_ok(st: St, sym: RtSym, tag: i32, a: Val, b: Val, c: Val, d: Val, fns: nat)
    requires
        st.ok(fns),
        st.has_val(a),
        st.has_val(b),
        st.has_val(c),
        st.has_val(d),
        sym.arity() == 5,
    ensures
        st.leads(st.record_five(sym, tag, a, b, c, d), fns),
{
    broadcast use code_laws::group_code;

}

proof fn print_text_ok(st: St, text: Seq<char>, fns: nat)
    requires
        st.ok(fns),
    ensures
        st.leads(st.print_text(text), fns),
{
    broadcast use code_laws::group_code;

}

proof fn print_typed_ok(st: St, v: Val, ty: ResolvedTy, fns: nat)
    requires
        st.ok(fns),
        st.has_val(v),
    ensures
        st.runs(st.print_typed(v, ty), fns),
{
    broadcast use code_laws::group_code;

}

pub(crate) proof fn slot_addr_ok(st: St, ptr: Val, index: Val, base: i64, fns: nat)
    requires
        st.ok(fns),
        st.has_val(ptr),
        st.has_val(index),
    ensures
        st.gives(st.slot_addr(ptr, index, base), fns),
{
    broadcast use code_laws::group_code;

}

proof fn alloc_box_ok(st: St, size: i64, fns: nat)
    requires
        st.ok(fns),
    ensures
        st.gives(st.alloc_box(size), fns),
{
    broadcast use code_laws::group_code;

}

proof fn copy_dims_ok(st: St, arr: Val, s: StackSlot, dim: nat, fns: nat)
    requires
        st.ok(fns),
        st.has_val(arr),
        st.has_slot(s),
    ensures
        st.leads(st.copy_dims(arr, s, dim), fns),
    decreases 3 - dim,
{
    broadcast use code_laws::group_code;

    if dim >= 3 {
        code_laws::grows_same(st);
    } else {
        let (a, off) = st.iconst(ClTy::Ptr, (8 * dim) as int);
        let (b, src) = a.arith(Arith::Iadd, arr, off);
        let (c, v) = b.load(ClTy::I64, src, 0);
        let d = c.stack_store(v, s, state::slot_offset(0, dim));
        copy_dims_ok(d, arr, s, dim + 1, fns);
    }
}

proof fn store_dims_ok(st: St, dims: Seq<usize>, s: StackSlot, i: nat, fns: nat)
    requires
        st.ok(fns),
        st.has_slot(s),
    ensures
        st.leads(st.store_dims(dims, s, i), fns),
    decreases dims.len() - i,
{
    broadcast use code_laws::group_code;

    if i >= dims.len() {
        code_laws::grows_same(st);
    } else {
        let (a, d) = st.val(Inst::Iconst { ty: ClTy::I64, imm: dims[i as int] as i64 });
        let b = a.stack_store(d, s, state::slot_offset(0, i));
        store_dims_ok(b, dims, s, i + 1, fns);
    }
}

proof fn literal_element_ok(st: St, dtype: ScalarTy, v: Val, ty: ResolvedTy, fns: nat)
    requires
        st.ok(fns),
        st.has_val(v),
    ensures
        st.gives(st.literal_element(dtype, v, ty), fns),
{
    broadcast use code_laws::group_code;

    code_laws::grows_same(st);
}

proof fn null_dims_ok(st: St, fns: nat)
    requires
        st.ok(fns),
    ensures
        st.leads(st.null_dims().0, fns),
        st.null_dims().0.has_val(st.null_dims().1),
        st.null_dims().0.has_val(st.null_dims().2),
{
    broadcast use code_laws::group_code;

}

proof fn transpose_2d_ok(st: St, env: EnvView, x: Val, grad: bool, fns: nat)
    requires
        st.ok(fns),
        st.has_val(x),
        code_laws::sound_env(env, fns),
    ensures
        st.lowers(st.transpose_2d(env, x, grad), fns),
{
    broadcast use code_laws::group_code;

    fwd_call_ok(st, env, "__transpose_2d_fwd"@, seq![x], fns);
    match st.fwd_call(env, "__transpose_2d_fwd"@, seq![x]) {
        Err(_) => {},
        Ok((st, out)) => {
            null_dims_ok(st, fns);
            let (st, p, n) = st.null_dims();
            record_five_ok(st, RtSym::TapeRecordPerm, OPTAG_TRANSPOSE, x, out, p, n, fns);
        },
    }
}

proof fn permute_3d_ok(st: St, env: EnvView, vs: Seq<Val>, grad: bool, fns: nat)
    requires
        st.ok(fns),
        vs.len() == 4,
        forall|j: int| 0 <= j < vs.len() ==> st.has_val(#[trigger] vs[j]),
        code_laws::sound_env(env, fns),
    ensures
        st.lowers(st.permute_3d(env, vs, grad), fns),
{
    broadcast use code_laws::group_code;

    assert(st.has_val(vs[0]) && st.has_val(vs[1]) && st.has_val(vs[2]) && st.has_val(vs[3]));
    fwd_call_ok(st, env, "__permute_3d_fwd"@, vs, fns);
    match st.fwd_call(env, "__permute_3d_fwd"@, vs) {
        Err(_) => {},
        Ok((st, out)) => {
            let (st, s) = st.slot(24, 3);
            let st = st.stack_store(vs[1], s, 0);
            let st = st.stack_store(vs[2], s, 8);
            let st = st.stack_store(vs[3], s, 16);
            let (st, dims) = st.stack_addr(s);
            let (st, n) = st.iconst(ClTy::Ptr, 3);
            record_five_ok(st, RtSym::TapeRecordPerm, OPTAG_TRANSPOSE, vs[0], out, dims, n, fns);
        },
    }
}

proof fn launch_ok(st: St, id: u64,
    handles_slot: StackSlot,
    n: nat,
    grid_slot: StackSlot,
    tg_slot: StackSlot,
    out_ptr: Val,
    out_rank: Val,
    dt: Val,
    uni_ptr: Val,
    uni_size: Val,
    fns: nat)
    requires
        st.ok(fns),
        st.has_slot(handles_slot),
        st.has_slot(grid_slot),
        st.has_slot(tg_slot),
        st.has_val(out_ptr),
        st.has_val(out_rank),
        st.has_val(dt),
        st.has_val(uni_ptr),
        st.has_val(uni_size),
    ensures
        st.gives(
            st.launch(
                id,
                handles_slot,
                n,
                grid_slot,
                tg_slot,
                out_ptr,
                out_rank,
                dt,
                uni_ptr,
                uni_size,
            ),
            fns,
        ),
{
    broadcast use code_laws::group_code;

}

/// Code generated for an expression refers only backwards.
pub proof fn expr_ok(st: St, env: EnvView, e: TypedExpr, fns: nat)
    requires
        st.ok(fns),
        code_laws::sound_env(env, fns),
    ensures
        st.lowers(st.expr(env, e), fns),
    decreases e, 3nat,
{
    broadcast use code_laws::group_code;

    match e.kind {
        TypedExprKind::Lit(l) => {
            lit_ok(st, l, e.ty, fns);
        },
        TypedExprKind::Ident(name) => {},
        TypedExprKind::BinOp { op, lhs, rhs } => {
            binop_ok(st, env, e, fns);
        },
        TypedExprKind::Unary { op, operand } => {
            unary_ok(st, env, op, *operand, fns);
        },
        TypedExprKind::Call { callee, args } => {
            call_expr_ok(st, env, callee@, args@, e.grad_tracked, fns);
        },
        TypedExprKind::KernelCall { callee, args } => {
            kernel_dispatch_ok(st, env, callee@, args@, fns);
        },
        TypedExprKind::TensorLiteral { dtype, elements, shape } => {
            tensor_literal_ok(st, env, dtype, elements@, shape@, fns);
        },
        TypedExprKind::Index { base, indices } => {
            index_expr_ok(st, env, e, fns);
        },
        TypedExprKind::ArrayLiteral { elements } => {
            array_literal_ok(st, env, elements@, e.ty is List, fns);
        },
        TypedExprKind::FieldAccess { base, field } => {
            field_access_ok(st, env, *base, field@, e.ty, fns);
        },
        TypedExprKind::StructInit { name, fields } => {
            boxed_ok(st, env, fields@, fns);
        },
        TypedExprKind::EnumInit { variant_index, payload, max_payload_slots } => {
            enum_init_ok(st, env, variant_index, payload@, max_payload_slots as nat, fns);
        },
        TypedExprKind::TupleInit { elements } => {
            boxed_ok(st, env, elements@, fns);
        },
        TypedExprKind::TupleIndex { base, index } => {
            expr_ok(st, env, *base, fns);
        },
        TypedExprKind::KernelLaunch { kernel, grid, tg, out_shape, tensor_args, scalar_args } => {
            kernel_launch_ok(st, env, e, fns);
        },
    }
}

proof fn list_ok(
    st: St,
    env: EnvView,
    args: Seq<TypedExpr>,
    i: nat,
    n: nat,
    vs: Seq<Val>,
    fns: nat,
)
    requires
        st.ok(fns),
        code_laws::sound_env(env, fns),
        i <= n,
        forall|j: int| 0 <= j < vs.len() ==> st.has_val(#[trigger] vs[j]),
    ensures
        match st.list(env, args, i, n, vs) {
            Ok((after, all)) => {
                &&& st.leads(after, fns)
                &&& all.len() == vs.len() + n - i
                &&& forall|j: int| 0 <= j < all.len() ==> after.has_val(#[trigger] all[j])
            },
            Err(_) => true,
        },
    decreases args, n - i,
{
    broadcast use code_laws::group_code;

    if i >= n {
        code_laws::grows_same(st);
    } else if i < args.len() {
        expr_ok(st, env, args[i as int], fns);
        match st.expr(env, args[i as int]) {
            Err(_) => {},
            Ok((next, v)) => {
                let more = vs.push(v);
                assert forall|j: int| 0 <= j < more.len() implies next.has_val(
                    #[trigger] more[j],
                ) by {
                    if j < vs.len() {
                        assert(st.has_val(vs[j]));
                    }
                }
                list_ok(next, env, args, i + 1, n, more, fns);
            },
        }
    }
}

/// As [`list_ok`], for the first `n` arguments.
proof fn firsts_ok(st: St, env: EnvView, args: Seq<TypedExpr>, n: nat, fns: nat)
    requires
        st.ok(fns),
        code_laws::sound_env(env, fns),
    ensures
        match st.list(env, args, 0, n, Seq::empty()) {
            Ok((after, all)) => {
                &&& st.leads(after, fns)
                &&& all.len() == n
                &&& forall|j: int| 0 <= j < all.len() ==> after.has_val(#[trigger] all[j])
            },
            Err(_) => true,
        },
    decreases args, n + 1,
{
    list_ok(st, env, args, 0, n, Seq::empty(), fns);
}

proof fn spill_ok(
    st: St,
    env: EnvView,
    args: Seq<TypedExpr>,
    from: nat,
    i: nat,
    s: StackSlot,
    fns: nat,
)
    requires
        st.ok(fns),
        code_laws::sound_env(env, fns),
        st.has_slot(s),
    ensures
        st.runs(st.spill(env, args, from, i, s), fns),
    decreases args, args.len() - i,
{
    broadcast use code_laws::group_code;

    if i >= args.len() {
        code_laws::grows_same(st);
    } else {
        expr_ok(st, env, args[i as int], fns);
        match st.expr(env, args[i as int]) {
            Err(_) => {},
            Ok((next, v)) => {
                let next = next.stack_store(v, s, state::slot_offset(0, (i - from) as nat));
                spill_ok(next, env, args, from, i + 1, s, fns);
            },
        }
    }
}

proof fn fill_ok(
    st: St,
    env: EnvView,
    members: Seq<TypedExpr>,
    i: nat,
    ptr: Val,
    base: i32,
    fns: nat,
)
    requires
        st.ok(fns),
        code_laws::sound_env(env, fns),
        st.has_val(ptr),
    ensures
        st.runs(st.fill(env, members, i, ptr, base), fns),
    decreases members, members.len() - i,
{
    broadcast use code_laws::group_code;

    if i >= members.len() {
        code_laws::grows_same(st);
    } else {
        expr_ok(st, env, members[i as int], fns);
        match st.expr(env, members[i as int]) {
            Err(_) => {},
            Ok((next, v)) => {
                let next = next.store(v, ptr, state::slot_offset(base, i));
                fill_ok(next, env, members, i + 1, ptr, base, fns);
            },
        }
    }
}

proof fn boxed_ok(st: St, env: EnvView, members: Seq<TypedExpr>, fns: nat)
    requires
        st.ok(fns),
        code_laws::sound_env(env, fns),
    ensures
        st.lowers(st.boxed(env, members), fns),
    decreases members, members.len() + 1,
{
    broadcast use code_laws::group_code;

    let size = state::box_size(8, members.len());
    alloc_box_ok(st, size, fns);
    let (next, ptr) = st.alloc_box(size);
    fill_ok(next, env, members, 0, ptr, 8, fns);
}

proof fn enum_init_ok(
    st: St,
    env: EnvView,
    tag: u32,
    payload: Seq<TypedExpr>,
    max_slots: nat,
    fns: nat,
)
    requires
        st.ok(fns),
        code_laws::sound_env(env, fns),
    ensures
        st.lowers(st.enum_init(env, tag, payload, max_slots), fns),
    decreases payload, payload.len() + 1,
{
    broadcast use code_laws::group_code;

    let size = state::box_size(16, max_slots);
    alloc_box_ok(st, size, fns);
    let (next, ptr) = st.alloc_box(size);
    let (next, t) = next.iconst(ClTy::I32, tag as int);
    fill_ok(next.store(t, ptr, 8), env, payload, 0, ptr, 16, fns);
}

proof fn array_literal_ok(st: St, env: EnvView, elements: Seq<TypedExpr>, is_list: bool, fns: nat)
    requires
        st.ok(fns),
        code_laws::sound_env(env, fns),
    ensures
        st.lowers(st.array_literal(env, elements, is_list), fns),
    decreases elements, elements.len() + 1,
{
    broadcast use code_laws::group_code;

    if is_list {
        let size = state::box_size(16, elements.len());
        alloc_box_ok(st, size, fns);
        let (next, ptr) = st.alloc_box(size);
        let (next, n) = next.val(
            Inst::Iconst { ty: ClTy::I64, imm: (elements.len() as usize) as i64 },
        );
        fill_ok(next.store(n, ptr, 8), env, elements, 0, ptr, 16, fns);
    } else {
        let (next, size) = st.val(
            Inst::Iconst { ty: ClTy::Ptr, imm: state::box_size(0, elements.len()) },
        );
        let (next, ptr) = next.rt(RtSym::Malloc, seq![size]);
        fill_ok(next, env, elements, 0, ptr, 0, fns);
    }
}

proof fn literal_elements_ok(
    st: St,
    env: EnvView,
    dtype: ScalarTy,
    elements: Seq<TypedExpr>,
    i: nat,
    s: StackSlot,
    fns: nat,
)
    requires
        st.ok(fns),
        code_laws::sound_env(env, fns),
        st.has_slot(s),
    ensures
        st.runs(st.literal_elements(env, dtype, elements, i, s), fns),
    decreases elements, elements.len() - i,
{
    broadcast use code_laws::group_code;

    if i >= elements.len() {
        code_laws::grows_same(st);
    } else {
        expr_ok(st, env, elements[i as int], fns);
        match st.expr(env, elements[i as int]) {
            Err(_) => {},
            Ok((next, v)) => {
                literal_element_ok(next, dtype, v, elements[i as int].ty, fns);
                let (next, stored) = next.literal_element(dtype, v, elements[i as int].ty);
                let next = next.stack_store(
                    stored,
                    s,
                    (scheme_expr::literal_width(dtype) * i) as i32,
                );
                literal_elements_ok(next, env, dtype, elements, i + 1, s, fns);
            },
        }
    }
}

proof fn tensor_literal_ok(
    st: St,
    env: EnvView,
    dtype: ScalarTy,
    elements: Seq<TypedExpr>,
    shape: Seq<usize>,
    fns: nat,
)
    requires
        st.ok(fns),
        code_laws::sound_env(env, fns),
    ensures
        st.lowers(st.tensor_literal(env, dtype, elements, shape), fns),
    decreases elements, elements.len() + 1,
{
    broadcast use code_laws::group_code;

    let w = scheme_expr::literal_width(dtype);
    let (next, data_slot) = st.slot(
        scheme_expr::max_u32(state::stack_size(w as nat, elements.len()), w),
        if w == 8 {
            3
        } else {
            2
        },
    );
    literal_elements_ok(next, env, dtype, elements, 0, data_slot, fns);
    match next.literal_elements(env, dtype, elements, 0, data_slot) {
        Err(_) => {},
        Ok(next) => {
            let (next, shape_slot) = next.slot(
                scheme_expr::max_u32(state::stack_size(8, shape.len()), 8),
                3,
            );
            store_dims_ok(next, shape, shape_slot, 0, fns);
            assert(next.store_dims(shape, shape_slot, 0).has_slot(data_slot));
        },
    }
}

proof fn kernel_dispatch_ok(
    st: St,
    env: EnvView,
    name: Seq<char>,
    args: Seq<TypedExpr>,
    fns: nat,
)
    requires
        st.ok(fns),
        code_laws::sound_env(env, fns),
    ensures
        st.lowers(st.kernel_dispatch(env, name, args), fns),
    decreases args, args.len() + 1,
{
    broadcast use code_laws::group_code;

    if env.kernels.contains_key(name) {
        let (next, s) = st.slot(state::stack_size(8, args.len()), 3);
        spill_ok(next, env, args, 0, 0, s, fns);
        match next.spill(env, args, 0, 0, s) {
            Err(_) => {},
            Ok(next) => {
                dispatch_slot_ok(next, env.kernels[name], s, args.len(), fns);
            },
        }
    }
}

proof fn materialize_ok(st: St, env: EnvView, e: TypedExpr, fns: nat)
    requires
        st.ok(fns),
        code_laws::sound_env(env, fns),
    ensures
        st.lowers(st.materialize(env, e), fns),
    decreases e, 4nat,
{
    broadcast use code_laws::group_code;

    expr_ok(st, env, e, fns);
    match st.expr(env, e) {
        Err(_) => {},
        Ok((next, v)) => match e.ty {
            ResolvedTy::Scalar(s) => {
                if s.is_float() {
                    scalar_tensor_ok(next, v, fns);
                } else {
                    let (a, wide) = if s.machine() == ClTy::I64 {
                        (next, v)
                    } else {
                        next.convert(Convert::Sextend64, v)
                    };
                    let (b, f) = a.convert(Convert::FcvtFromSint, wide);
                    scalar_tensor_ok(b, f, fns);
                }
            },
            _ => {},
        },
    }
}

proof fn scalar_broadcast_ok(
    st: St,
    env: EnvView,
    e: TypedExpr,
    scalar_on_right: bool,
    fns: nat,
)
    requires
        st.ok(fns),
        code_laws::sound_env(env, fns),
    ensures
        st.lowers(st.scalar_broadcast(env, e, scalar_on_right), fns),
    decreases e, 1nat,
{
    broadcast use code_laws::group_code;

    match e.kind {
        TypedExprKind::BinOp { op, lhs, rhs } => match op.scalar_broadcast_kernel(
            scalar_on_right,
        ) {
            None => {},
            Some(name) => {
                let tensor = if scalar_on_right {
                    *lhs
                } else {
                    *rhs
                };
                let scalar = if scalar_on_right {
                    *rhs
                } else {
                    *lhs
                };
                expr_ok(st, env, tensor, fns);
                match st.expr(env, tensor) {
                    Err(_) => {},
                    Ok((a, t)) => {
                        materialize_ok(a, env, scalar, fns);
                        match a.materialize(env, scalar) {
                            Err(_) => {},
                            Ok((b, s)) => {
                                dispatch_handles_ok(b, env, name, seq![t, s], fns);
                            },
                        }
                    },
                }
            },
        },
        _ => {},
    }
}

proof fn tensor_binop_ok(st: St, env: EnvView, e: TypedExpr, fns: nat)
    requires
        st.ok(fns),
        code_laws::sound_env(env, fns),
    ensures
        st.lowers(st.tensor_binop(env, e), fns),
    decreases e, 1nat,
{
    broadcast use code_laws::group_code;

    match e.kind {
        TypedExprKind::BinOp { op, lhs, rhs } => {
            expr_ok(st, env, *lhs, fns);
            match st.expr(env, *lhs) {
                Err(_) => {},
                Ok((s1, a)) => {
                    expr_ok(s1, env, *rhs, fns);
                    match s1.expr(env, *rhs) {
                        Err(_) => {},
                        Ok((s2, b)) => {
                            let lowered = if op is Matmul {
                                Ok(s2.rt(RtSym::TensorMatmul, seq![a, b]))
                            } else {
                                match op.broadcast_fwd() {
                                    Some(name) => s2.fwd_call(env, name, seq![a, b]),
                                    None => Err(
                                        scheme_expr::unsupp(
                                            "binop "@ + op.text() + " on tensors not supported"@,
                                        ),
                                    ),
                                }
                            };
                            if !(op is Matmul) {
                                match op.broadcast_fwd() {
                                    Some(name) => {
                                        fwd_call_ok(s2, env, name, seq![a, b], fns);
                                    },
                                    None => {},
                                }
                            }
                            assert(s2.lowers(lowered, fns));
                            match lowered {
                                Err(_) => {},
                                Ok((s3, out)) => match op.optag() {
                                    Some(tag) => {
                                        record_binop_ok(s3, tag, a, b, out, fns);
                                    },
                                    None => {},
                                },
                            }
                        },
                    }
                },
            }
        },
        _ => {},
    }
}

proof fn binop_ok(st: St, env: EnvView, e: TypedExpr, fns: nat)
    requires
        st.ok(fns),
        code_laws::sound_env(env, fns),
    ensures
        st.lowers(st.binop(env, e), fns),
    decreases e, 2nat,
{
    broadcast use code_laws::group_code;

    match e.kind {
        TypedExprKind::BinOp { op, lhs, rhs } => {
            tensor_binop_ok(st, env, e, fns);
            scalar_broadcast_ok(st, env, e, true, fns);
            scalar_broadcast_ok(st, env, e, false, fns);
            expr_ok(st, env, *lhs, fns);
            match st.expr(env, *lhs) {
                Err(_) => {},
                Ok((a, l)) => {
                    expr_ok(a, env, *rhs, fns);
                    match a.expr(env, *rhs) {
                        Err(_) => {},
                        Ok((b, r)) => {
                            bool_binop_ok(b, op, l, r, fns);
                            match lhs.ty {
                                ResolvedTy::Scalar(s) => {
                                    scalar_binop_ok(b, op, l, r, s, fns);
                                },
                                _ => {},
                            }
                        },
                    }
                },
            }
        },
        _ => {},
    }
}

proof fn unary_ok(st: St, env: EnvView, op: UnaryOp, operand: TypedExpr, fns: nat)
    requires
        st.ok(fns),
        code_laws::sound_env(env, fns),
    ensures
        st.lowers(st.unary(env, op, operand), fns),
    decreases operand, 4nat,
{
    broadcast use code_laws::group_code;

    expr_ok(st, env, operand, fns);
    match st.expr(env, operand) {
        Err(_) => {},
        Ok((a, v)) => {
            if op is Neg && operand.ty is Tensor {
                let (b, minus_one) = a.val(Inst::F32Const { bits: 0xbf80_0000 });
                scalar_tensor_ok(b, minus_one, fns);
                let (c, s) = b.scalar_tensor(minus_one);
                dispatch_handles_ok(c, env, "malus_mul_scalar"@, seq![v, s], fns);
                match c.dispatch_handles(env, "malus_mul_scalar"@, seq![v, s]) {
                    Err(_) => {},
                    Ok((d, out)) => {
                        let f = d.rt(RtSym::TensorFree, seq![s]).0;
                        record_unary_ok(f, OPTAG_NEG, v, out, fns);
                    },
                }
            }
        },
    }
}

proof fn print_value_ok(st: St, env: EnvView, arg: TypedExpr, fns: nat)
    requires
        st.ok(fns),
        code_laws::sound_env(env, fns),
    ensures
        st.runs(st.print_value(env, arg), fns),
    decreases arg, 4nat,
{
    broadcast use code_laws::group_code;

    expr_ok(st, env, arg, fns);
    match st.expr(env, arg) {
        Err(_) => {},
        Ok((a, v)) => {
            print_typed_ok(a, v, arg.ty, fns);
        },
    }
}

proof fn print_args_ok(st: St, env: EnvView, args: Seq<TypedExpr>, i: nat, fns: nat)
    requires
        st.ok(fns),
        code_laws::sound_env(env, fns),
    ensures
        st.runs(st.print_args(env, args, i), fns),
    decreases args, args.len() - i,
{
    broadcast use code_laws::group_code;

    if i >= args.len() {
        code_laws::grows_same(st);
    } else {
        print_value_ok(st, env, args[i as int], fns);
        match st.print_value(env, args[i as int]) {
            Err(_) => {},
            Ok(a) => {
                print_args_ok(a, env, args, i + 1, fns);
            },
        }
    }
}

proof fn print_segments_ok(
    st: St,
    env: EnvView,
    segs: Seq<Segment>,
    k: nat,
    args: Seq<TypedExpr>,
    next: nat,
    fns: nat,
)
    requires
        st.ok(fns),
        code_laws::sound_env(env, fns),
    ensures
        st.runs(st.print_segments(env, segs, k, args, next), fns),
    decreases args, segs.len() - k,
{
    broadcast use code_laws::group_code;

    if k >= segs.len() {
        code_laws::grows_same(st);
    } else {
        match segs[k as int] {
            Segment::Literal(text) => {
                print_text_ok(st, text, fns);
                print_segments_ok(st.print_text(text), env, segs, k + 1, args, next, fns);
            },
            Segment::Placeholder => {
                if next < args.len() {
                    print_value_ok(st, env, args[next as int], fns);
                    match st.print_value(env, args[next as int]) {
                        Err(_) => {},
                        Ok(a) => {
                            print_segments_ok(a, env, segs, k + 1, args, next + 1, fns);
                        },
                    }
                }
            },
        }
    }
}

proof fn print_call_ok(st: St, env: EnvView, newline: bool, args: Seq<TypedExpr>, fns: nat)
    requires
        st.ok(fns),
        code_laws::sound_env(env, fns),
    ensures
        st.lowers(st.print_call(env, newline, args), fns),
    decreases args, args.len() + scheme_expr::format_of(args).len() + 1,
{
    broadcast use code_laws::group_code;

    let segs = scheme_expr::format_of(args);
    print_segments_ok(st, env, segs, 0, args, 1, fns);
    print_args_ok(st, env, args, 0, fns);
    let printed = if args.len() > 0 && (args[0].kind matches TypedExprKind::Lit(Lit::Str(_))) {
        st.print_segments(env, segs, 0, args, 1)
    } else {
        st.print_args(env, args, 0)
    };
    match printed {
        Err(_) => {},
        Ok(a) => {
            print_text_ok(a, "\n"@, fns);
        },
    }
}

proof fn shaped_alloc_ok(st: St, env: EnvView, sym: RtSym, args: Seq<TypedExpr>, fns: nat)
    requires
        st.ok(fns),
        code_laws::sound_env(env, fns),
        sym.arity() == 2,
    ensures
        st.lowers(st.shaped_alloc(env, sym, args), fns),
    decreases args, args.len() + 1,
{
    broadcast use code_laws::group_code;

    let (next, s) = st.slot(state::stack_size(8, args.len()), 3);
    spill_ok(next, env, args, 0, 0, s, fns);
}

proof fn rt_args_ok(st: St, env: EnvView, sym: RtSym, args: Seq<TypedExpr>, n: nat, fns: nat)
    requires
        st.ok(fns),
        code_laws::sound_env(env, fns),
        sym.arity() == n,
    ensures
        st.lowers(st.rt_args(env, sym, args, n), fns),
    decreases args, n + 2,
{
    broadcast use code_laws::group_code;

    firsts_ok(st, env, args, n, fns);
}

/// A call of a library function on the first `n` arguments.
proof fn fwd_ok(st: St, env: EnvView, name: Seq<char>, args: Seq<TypedExpr>, n: nat, fns: nat)
    requires
        st.ok(fns),
        code_laws::sound_env(env, fns),
        n > 0,
    ensures
        match st.list(env, args, 0, n, Seq::empty()) {
            Ok((a, vs)) => {
                &&& st.leads(a, fns)
                &&& vs.len() == n
                &&& forall|j: int| 0 <= j < vs.len() ==> a.has_val(#[trigger] vs[j])
                &&& a.lowers(a.fwd_call(env, name, vs), fns)
                &&& match a.fwd_call(env, name, vs) {
                    Ok((b, out)) => forall|j: int|
                        0 <= j < vs.len() ==> b.has_val(#[trigger] vs[j]),
                    Err(_) => true,
                }
            },
            Err(_) => true,
        },
    decreases args, n + 2,
{
    broadcast use code_laws::group_code;

    firsts_ok(st, env, args, n, fns);
    match st.list(env, args, 0, n, Seq::empty()) {
        Err(_) => {},
        Ok((a, vs)) => {
            fwd_call_ok(a, env, name, vs, fns);
            match a.fwd_call(env, name, vs) {
                Err(_) => {},
                Ok((b, out)) => {
                    assert forall|j: int| 0 <= j < vs.len() implies b.has_val(
                        #[trigger] vs[j],
                    ) by {
                        assert(a.has_val(vs[j]));
                    }
                },
            }
        },
    }
}

proof fn sum_all_ok(st: St, env: EnvView, args: Seq<TypedExpr>, grad: bool, fns: nat)
    requires
        st.ok(fns),
        code_laws::sound_env(env, fns),
    ensures
        st.lowers(st.sum_all(env, args, grad), fns),
    decreases args, 5nat,
{
    broadcast use code_laws::group_code;

    let name = "__reduce_all_sum_fwd"@;
    fwd_ok(st, env, name, args, 1, fns);
    match st.list(env, args, 0, 1, Seq::empty()) {
        Err(_) => {},
        Ok((a, vs)) => match a.fwd_call(env, name, vs) {
            Err(_) => {},
            Ok((b, out)) => {
                record_unary_ok(b, OPTAG_SUM, vs[0], out, fns);
            },
        },
    }
}

proof fn axis_reduction_ok(
    st: St,
    env: EnvView,
    b: Builtin,
    args: Seq<TypedExpr>,
    grad: bool,
    fns: nat,
)
    requires
        st.ok(fns),
        code_laws::sound_env(env, fns),
    ensures
        st.lowers(st.axis_reduction(env, b, args, grad), fns),
    decreases args, 6nat,
{
    broadcast use code_laws::group_code;

    let (name, tag) = b.axis_fwd();
    fwd_ok(st, env, name, args, 3, fns);
    match st.list(env, args, 0, 3, Seq::empty()) {
        Err(_) => {},
        Ok((a, vs)) => match a.fwd_call(env, name, vs) {
            Err(_) => {},
            Ok((c, out)) => {
                assert(c.has_val(vs[0]) && c.has_val(vs[1]) && c.has_val(vs[2]));
                record_five_ok(
                    c,
                    RtSym::TapeRecordReduce,
                    tag,
                    vs[0],
                    out,
                    vs[1],
                    vs[2],
                    fns,
                );
            },
        },
    }
}

proof fn softmax_ok(st: St, env: EnvView, args: Seq<TypedExpr>, grad: bool, fns: nat)
    requires
        st.ok(fns),
        code_laws::sound_env(env, fns),
    ensures
        st.lowers(st.softmax(env, args, grad), fns),
    decreases args, 5nat,
{
    broadcast use code_laws::group_code;

    let name = "__softmax_fwd"@;
    fwd_ok(st, env, name, args, 2, fns);
    match st.list(env, args, 0, 2, Seq::empty()) {
        Err(_) => {},
        Ok((a, vs)) => match a.fwd_call(env, name, vs) {
            Err(_) => {},
            Ok((b, out)) => {
                assert(b.has_val(vs[0]) && b.has_val(vs[1]));
                let (c, zero) = b.iconst(ClTy::I64, 0);
                record_five_ok(
                    c,
                    RtSym::TapeRecordReduce,
                    OPTAG_SOFTMAX,
                    vs[0],
                    out,
                    vs[1],
                    zero,
                    fns,
                );
            },
        },
    }
}

proof fn layernorm_ok(st: St, env: EnvView, args: Seq<TypedExpr>, grad: bool, fns: nat)
    requires
        st.ok(fns),
        code_laws::sound_env(env, fns),
    ensures
        st.lowers(st.layernorm(env, args, grad), fns),
    decreases args, 5nat,
{
    broadcast use code_laws::group_code;

    let name = "__layernorm_fwd"@;
    fwd_ok(st, env, name, args, 2, fns);
    match st.list(env, args, 0, 2, Seq::empty()) {
        Err(_) => {},
        Ok((a, vs)) => match a.fwd_call(env, name, vs) {
            Err(_) => {},
            Ok((b, pair)) => {
                assert(b.has_val(vs[0]) && b.has_val(vs[1]));
                let (c, normed) = b.load(ClTy::I64, pair, 8);
                let (d, variance) = c.load(ClTy::I64, pair, 16);
                let f = d.rt(RtSym::AggregateRelease, seq![pair]).0;
                record_five_ok(
                    f,
                    RtSym::TapeRecordLayernorm,
                    OPTAG_LAYERNORM,
                    vs[0],
                    normed,
                    variance,
                    vs[1],
                    fns,
                );
            },
        },
    }
}

proof fn gelu_ok(st: St, env: EnvView, args: Seq<TypedExpr>, grad: bool, fns: nat)
    requires
        st.ok(fns),
        code_laws::sound_env(env, fns),
    ensures
        st.lowers(st.gelu(env, args, grad), fns),
    decreases args, 5nat,
{
    broadcast use code_laws::group_code;

    let name = "__gelu_fwd"@;
    fwd_ok(st, env, name, args, 1, fns);
    match st.list(env, args, 0, 1, Seq::empty()) {
        Err(_) => {},
        Ok((a, vs)) => match a.fwd_call(env, name, vs) {
            Err(_) => {},
            Ok((b, out)) => {
                record_unary_ok(b, OPTAG_GELU, vs[0], out, fns);
            },
        },
    }
}

proof fn embedding_ok(st: St, env: EnvView, args: Seq<TypedExpr>, grad: bool, fns: nat)
    requires
        st.ok(fns),
        code_laws::sound_env(env, fns),
    ensures
        st.lowers(st.embedding(env, args, grad), fns),
    decreases args, 5nat,
{
    broadcast use code_laws::group_code;

    let name = "__embedding_fwd"@;
    fwd_ok(st, env, name, args, 2, fns);
    match st.list(env, args, 0, 2, Seq::empty()) {
        Err(_) => {},
        Ok((a, vs)) => match a.fwd_call(env, name, vs) {
            Err(_) => {},
            Ok((b, out)) => {
                assert(b.has_val(vs[0]) && b.has_val(vs[1]));
            },
        },
    }
}

proof fn cross_entropy_ok(st: St, env: EnvView, args: Seq<TypedExpr>, grad: bool, fns: nat)
    requires
        st.ok(fns),
        code_laws::sound_env(env, fns),
    ensures
        st.lowers(st.cross_entropy(env, args, grad), fns),
    decreases args, 5nat,
{
    broadcast use code_laws::group_code;

    let name = "__cross_entropy_fwd"@;
    fwd_ok(st, env, name, args, 2, fns);
    match st.list(env, args, 0, 2, Seq::empty()) {
        Err(_) => {},
        Ok((a, vs)) => match a.fwd_call(env, name, vs) {
            Err(_) => {},
            Ok((b, pair)) => {
                assert(b.has_val(vs[0]) && b.has_val(vs[1]));
                let (c, loss) = b.load(ClTy::I64, pair, 8);
                let (d, probs) = c.load(ClTy::I64, pair, 16);
                let f = d.rt(RtSym::AggregateRelease, seq![pair]).0;
                record_five_ok(
                    f,
                    RtSym::TapeRecordCrossEntropy,
                    OPTAG_CROSS_ENTROPY,
                    vs[0],
                    loss,
                    probs,
                    vs[1],
                    fns,
                );
            },
        },
    }
}

proof fn dim_args_ok(st: St, env: EnvView, args: Seq<TypedExpr>, fns: nat)
    requires
        st.ok(fns),
        code_laws::sound_env(env, fns),
    ensures
        match st.dim_args(env, args) {
            Ok((after, p, n)) => st.leads(after, fns) && after.has_val(p) && after.has_val(n),
            Err(_) => true,
        },
    decreases args, args.len() + 1,
{
    broadcast use code_laws::group_code;

    if args.len() <= 1 {
        null_dims_ok(st, fns);
    } else {
        let (next, s) = st.slot(state::stack_size(8, (args.len() - 1) as nat), 3);
        spill_ok(next, env, args, 1, 1, s, fns);
    }
}

proof fn shape_call_ok(st: St, sym: RtSym, x: Val, dims: Val, n: Val, fns: nat)
    requires
        st.ok(fns),
        st.has_val(x),
        st.has_val(dims),
        st.has_val(n),
        sym.arity() == 3,
    ensures
        ({
            let (after, out) = st.rt(sym, seq![x, dims, n]);
            &&& st.gives((after, out), fns)
            &&& st.gives((after.record_unary(OPTAG_RESHAPE, x, out), out), fns)
            &&& st.gives((after.record_perm(x, out, dims, n), out), fns)
        }),
{
    broadcast use code_laws::group_code;

    let (after, out) = st.rt(sym, seq![x, dims, n]);
    assert(st.gives((after, out), fns));
    record_unary_ok(after, OPTAG_RESHAPE, x, out, fns);
    record_five_ok(after, RtSym::TapeRecordPerm, OPTAG_TRANSPOSE, x, out, dims, n, fns);
}

proof fn shape_op_ok(
    st: St,
    env: EnvView,
    b: Builtin,
    args: Seq<TypedExpr>,
    grad: bool,
    fns: nat,
)
    requires
        st.ok(fns),
        code_laws::sound_env(env, fns),
    ensures
        st.lowers(st.shape_op(env, b, args, grad), fns),
    decreases args, args.len() + 6,
{
    if b is Permute && args.len() == 4 {
        firsts_ok(st, env, args, 4, fns);
        match st.list(env, args, 0, 4, Seq::empty()) {
            Err(_) => {},
            Ok((a, vs)) => {
                permute_3d_ok(a, env, vs, grad, fns);
                match a.permute_3d(env, vs, grad) {
                    Err(_) => {},
                    Ok((c, out)) => {
                        code_laws::grows_on(st, a, c);
                    },
                }
            },
        }
    } else {
        firsts_ok(st, env, args, 1, fns);
        match st.list(env, args, 0, 1, Seq::empty()) {
            Err(_) => {},
            Ok((a, vs)) => {
                assert(a.has_val(vs[0]));
                if b is Transpose && args.len() == 1 {
                    transpose_2d_ok(a, env, vs[0], grad, fns);
                    match a.transpose_2d(env, vs[0], grad) {
                        Err(_) => {},
                        Ok((c, out)) => {
                            code_laws::grows_on(st, a, c);
                        },
                    }
                } else {
                    dim_args_ok(a, env, args, fns);
                    match a.dim_args(env, args) {
                        Err(_) => {},
                        Ok((c, dims, n)) => {
                            code_laws::grows_on(st, a, c);
                            code_laws::val_kept(a, c, vs[0]);
                            let sym = if b is Reshape {
                                RtSym::TensorReshape
                            } else {
                                RtSym::TensorPermute
                            };
                            shape_call_ok(c, sym, vs[0], dims, n, fns);
                            let (d, out) = c.rt(sym, seq![vs[0], dims, n]);
                            code_laws::grows_on(st, c, d);
                            code_laws::grows_on(st, c, d.record_unary(OPTAG_RESHAPE, vs[0], out));
                            code_laws::grows_on(st, c, d.record_perm(vs[0], out, dims, n));
                        },
                    }
                }
            },
        }
    }
}

proof fn zero_grad_ok(st: St, env: EnvView, args: Seq<TypedExpr>, fns: nat)
    requires
        st.ok(fns),
        code_laws::sound_env(env, fns),
    ensures
        st.lowers(st.zero_grad(env, args), fns),
    decreases args, args.len() + 1,
{
    broadcast use code_laws::group_code;

    if args.len() > 0 {
        let (next, s) = st.slot(state::stack_size(8, args.len()), 3);
        spill_ok(next, env, args, 0, 0, s, fns);
    }
}

proof fn unit_call_ok(st: St, env: EnvView, sym: RtSym, args: Seq<TypedExpr>, fns: nat)
    requires
        st.ok(fns),
        code_laws::sound_env(env, fns),
        sym.arity() == 1,
    ensures
        st.lowers(st.unit_call(env, sym, args), fns),
    decreases args, 4nat,
{
    broadcast use code_laws::group_code;

    rt_args_ok(st, env, sym, args, 1, fns);
}

proof fn builtin_call_ok(
    st: St,
    env: EnvView,
    b: Builtin,
    args: Seq<TypedExpr>,
    grad: bool,
    fns: nat,
)
    requires
        st.ok(fns),
        code_laws::sound_env(env, fns),
    ensures
        st.lowers(st.builtin_call(env, b, args, grad), fns),
    decreases args, args.len() + 10,
{
    broadcast use code_laws::group_code;

    match b {
        Builtin::Print | Builtin::Println => {},
        Builtin::Zeros => {
            shaped_alloc_ok(st, env, RtSym::TensorAllocZerosGpu, args, fns);
        },
        Builtin::Ones => {
            shaped_alloc_ok(st, env, RtSym::TensorAllocOnesGpu, args, fns);
        },
        Builtin::Randn => {
            shaped_alloc_ok(st, env, RtSym::TensorRandn, args, fns);
        },
        Builtin::Reshape | Builtin::Transpose | Builtin::Permute => {
            shape_op_ok(st, env, b, args, grad, fns);
        },
        Builtin::Sum => {
            sum_all_ok(st, env, args, grad, fns);
            axis_reduction_ok(st, env, b, args, grad, fns);
        },
        Builtin::Mean | Builtin::Max | Builtin::Variance => {
            axis_reduction_ok(st, env, b, args, grad, fns);
        },
        Builtin::Softmax => {
            softmax_ok(st, env, args, grad, fns);
        },
        Builtin::Layernorm => {
            layernorm_ok(st, env, args, grad, fns);
        },
        Builtin::Gelu => {
            gelu_ok(st, env, args, grad, fns);
        },
        Builtin::Embedding => {
            embedding_ok(st, env, args, grad, fns);
        },
        Builtin::CrossEntropy => {
            cross_entropy_ok(st, env, args, grad, fns);
        },
        Builtin::CausalMask => {
            rt_args_ok(st, env, RtSym::TensorCausalMask, args, 1, fns);
        },
        Builtin::Variable | Builtin::Len => {
            firsts_ok(st, env, args, 1, fns);
            match st.list(env, args, 0, 1, Seq::empty()) {
                Err(_) => {},
                Ok((a, vs)) => {
                    assert(a.has_val(vs[0]));
                },
            }
        },
        Builtin::Backward => {
            unit_call_ok(st, env, RtSym::Backward, args, fns);
        },
        Builtin::ZeroGrad => {
            zero_grad_ok(st, env, args, fns);
        },
        Builtin::TensorPrint => {
            unit_call_ok(st, env, RtSym::TensorPrint, args, fns);
        },
        Builtin::ReadFile => {
            rt_args_ok(st, env, RtSym::ReadFile, args, 1, fns);
        },
        Builtin::StrLen => {
            rt_args_ok(st, env, RtSym::StrLen, args, 1, fns);
        },
        Builtin::StrCharAt => {
            rt_args_ok(st, env, RtSym::StrCharAt, args, 2, fns);
        },
        Builtin::StrFromChar => {
            rt_args_ok(st, env, RtSym::StrFromChar, args, 1, fns);
        },
        Builtin::RandUniform => {
            rt_args_ok(st, env, RtSym::RandUniform, args, 0, fns);
        },
        Builtin::RecordDiff => {
            unit_call_ok(st, env, RtSym::RecordDiff, args, fns);
        },
        Builtin::RandInt => {
            rt_args_ok(st, env, RtSym::RandInt, args, 1, fns);
        },
        Builtin::BufferI32 => {
            rt_args_ok(st, env, RtSym::BufferI32, args, 1, fns);
        },
        Builtin::Freeze => {
            rt_args_ok(st, env, RtSym::BufferFreezeI32, args, 1, fns);
        },
    }
}

proof fn user_call_ok(
    st: St,
    env: EnvView,
    callee: Seq<char>,
    args: Seq<TypedExpr>,
    fns: nat,
)
    requires
        st.ok(fns),
        code_laws::sound_env(env, fns),
    ensures
        st.lowers(st.user_call(env, callee, args), fns),
    decreases args, args.len() + 2,
{
    broadcast use code_laws::group_code;

    firsts_ok(st, env, args, args.len(), fns);
}

proof fn kernel_callee_ok(
    st: St,
    env: EnvView,
    callee: Seq<char>,
    args: Seq<TypedExpr>,
    grad: bool,
    fns: nat,
)
    requires
        st.ok(fns),
        code_laws::sound_env(env, fns),
    ensures
        st.lowers(st.kernel_callee(env, callee, args, grad), fns),
    decreases args, args.len() + 5,
{
    broadcast use code_laws::group_code;

    kernel_dispatch_ok(st, env, callee, args, fns);
    firsts_ok(st, env, args, 1, fns);
    match st.list(env, args, 0, 1, Seq::empty()) {
        Err(_) => {},
        Ok((a, vs)) => {
            assert(a.has_val(vs[0]));
            dispatch_handles_ok(a, env, callee, vs, fns);
            match a.dispatch_handles(env, callee, vs) {
                Err(_) => {},
                Ok((b, out)) => match builtins::optag_of_unary(callee) {
                    None => {},
                    Some(tag) => {
                        record_unary_ok(b, tag, vs[0], out, fns);
                    },
                },
            }
        },
    }
}

proof fn call_expr_ok(
    st: St,
    env: EnvView,
    callee: Seq<char>,
    args: Seq<TypedExpr>,
    grad: bool,
    fns: nat,
)
    requires
        st.ok(fns),
        code_laws::sound_env(env, fns),
    ensures
        st.lowers(st.call_expr(env, callee, args, grad), fns),
    decreases args, args.len() + scheme_expr::format_of(args).len() + 20,
{
    print_call_ok(st, env, false, args, fns);
    print_call_ok(st, env, true, args, fns);
    kernel_callee_ok(st, env, callee, args, grad, fns);
    user_call_ok(st, env, callee, args, fns);
    match builtins::builtin_of(callee) {
        Some(b) => {
            builtin_call_ok(st, env, b, args, grad, fns);
        },
        None => {},
    }
}

proof fn index_expr_ok(st: St, env: EnvView, e: TypedExpr, fns: nat)
    requires
        st.ok(fns),
        code_laws::sound_env(env, fns),
    ensures
        st.lowers(st.index_expr(env, e), fns),
    decreases e, 2nat,
{
    broadcast use code_laws::group_code;

    index_value_ok(st, env, e, fns);
    match e.kind {
        TypedExprKind::Index { base, indices } => match base.kind {
            TypedExprKind::FieldAccess { base: inner, field } => {
                expr_ok(st, env, *inner, fns);
                match st.expr(env, *inner) {
                    Err(_) => {},
                    Ok((a, handle)) => {
                        firsts_ok(a, env, indices@, 1, fns);
                        match a.list(env, indices@, 0, 1, Seq::empty()) {
                            Err(_) => {},
                            Ok((b, vs)) => {
                                assert(b.has_val(vs[0]));
                            },
                        }
                    },
                }
            },
            _ => {},
        },
        _ => {},
    }
}

proof fn index_value_ok(st: St, env: EnvView, e: TypedExpr, fns: nat)
    requires
        st.ok(fns),
        code_laws::sound_env(env, fns),
    ensures
        st.lowers(st.index_value(env, e), fns),
    decreases e, 1nat,
{
    broadcast use code_laws::group_code;

    match e.kind {
        TypedExprKind::Index { base, indices } => {
            expr_ok(st, env, *base, fns);
            match st.expr(env, *base) {
                Err(_) => {},
                Ok((a, ptr)) => {
                    firsts_ok(a, env, indices@, 1, fns);
                    match a.list(env, indices@, 0, 1, Seq::empty()) {
                        Err(_) => {},
                        Ok((b, vs)) => {
                            assert(b.has_val(vs[0]));
                            slot_addr_ok(b, ptr, vs[0], 0, fns);
                            slot_addr_ok(b, ptr, vs[0], 16, fns);
                        },
                    }
                },
            }
        },
        _ => {},
    }
}

proof fn field_access_ok(
    st: St,
    env: EnvView,
    base: TypedExpr,
    field: Seq<char>,
    ty: ResolvedTy,
    fns: nat,
)
    requires
        st.ok(fns),
        code_laws::sound_env(env, fns),
    ensures
        st.lowers(st.field_access(env, base, field, ty), fns),
    decreases base, 4nat,
{
    broadcast use code_laws::group_code;

    expr_ok(st, env, base, fns);
}

proof fn dims_slot_ok(st: St, env: EnvView, e: TypedExpr, fns: nat)
    requires
        st.ok(fns),
        code_laws::sound_env(env, fns),
    ensures
        match st.dims_slot(env, e) {
            Ok((after, s)) => st.leads(after, fns) && after.has_slot(s),
            Err(_) => true,
        },
    decreases e, 4nat,
{
    broadcast use code_laws::group_code;

    let (a, s) = st.slot(24, 3);
    expr_ok(a, env, e, fns);
    match a.expr(env, e) {
        Err(_) => {},
        Ok((b, arr)) => {
            copy_dims_ok(b, arr, s, 0, fns);
        },
    }
}

proof fn launch_shape_ok(st: St, env: EnvView, out_shape: Option<Box<TypedExpr>>, fns: nat)
    requires
        st.ok(fns),
        code_laws::sound_env(env, fns),
    ensures
        match st.launch_shape(env, out_shape) {
            Ok((after, p, n)) => st.leads(after, fns) && after.has_val(p) && after.has_val(n),
            Err(_) => true,
        },
    decreases out_shape, 5nat,
{
    broadcast use code_laws::group_code;

    match out_shape {
        None => {
            null_dims_ok(st, fns);
        },
        Some(os) => {
            expr_ok(st, env, *os, fns);
            match st.expr(env, *os) {
                Err(_) => {},
                Ok((a, arr)) => {
                    let (b, s) = a.slot(24, 3);
                    copy_dims_ok(b, arr, s, 0, fns);
                },
            }
        },
    }
}

proof fn uniforms_ok(
    st: St,
    env: EnvView,
    args: Seq<TypedExpr>,
    i: nat,
    s: StackSlot,
    fns: nat,
)
    requires
        st.ok(fns),
        code_laws::sound_env(env, fns),
        st.has_slot(s),
    ensures
        st.runs(st.uniforms(env, args, i, s), fns),
    decreases args, args.len() - i,
{
    broadcast use code_laws::group_code;

    if i >= args.len() {
        code_laws::grows_same(st);
    } else {
        expr_ok(st, env, args[i as int], fns);
        match st.expr(env, args[i as int]) {
            Err(_) => {},
            Ok((a, v)) => match args[i as int].ty {
                ResolvedTy::Scalar(t) => {
                    let (b, v) = if t.is_float() {
                        (a, v)
                    } else {
                        a.convert(Convert::Ireduce32, v)
                    };
                    let c = b.stack_store(v, s, (4 * i) as i32);
                    uniforms_ok(c, env, args, i + 1, s, fns);
                },
                _ => {},
            },
        }
    }
}

proof fn uniform_block_ok(st: St, env: EnvView, args: Seq<TypedExpr>, fns: nat)
    requires
        st.ok(fns),
        code_laws::sound_env(env, fns),
    ensures
        match st.uniform_block(env, args) {
            Ok((after, p, n)) => st.leads(after, fns) && after.has_val(p) && after.has_val(n),
            Err(_) => true,
        },
    decreases args, args.len() + 1,
{
    broadcast use code_laws::group_code;

    if args.len() == 0 {
        null_dims_ok(st, fns);
    } else {
        let size = state::stack_size(4, args.len());
        let (a, s) = st.slot(scheme_expr::max_u32(size, 4), 2);
        uniforms_ok(a, env, args, 0, s, fns);
    }
}

proof fn launch_handles_ok(st: St, env: EnvView, args: Seq<TypedExpr>, fns: nat)
    requires
        st.ok(fns),
        code_laws::sound_env(env, fns),
    ensures
        match st.launch_handles(env, args) {
            Ok((after, s)) => st.leads(after, fns) && after.has_slot(s),
            Err(_) => true,
        },
    decreases args, args.len() + 1,
{
    broadcast use code_laws::group_code;

    if args.len() > 0 {
        let (a, s) = st.slot(state::stack_size(8, args.len()), 3);
        spill_ok(a, env, args, 0, 0, s, fns);
    }
}

proof fn kernel_launch_ok(st: St, env: EnvView, e: TypedExpr, fns: nat)
    requires
        st.ok(fns),
        code_laws::sound_env(env, fns),
    ensures
        st.lowers(st.kernel_launch(env, e), fns),
    decreases e, 2nat,
{
    broadcast use code_laws::group_code;

    match e.kind {
        TypedExprKind::KernelLaunch { kernel, grid, tg, out_shape, tensor_args, scalar_args } => {
            launch_handles_ok(st, env, tensor_args@, fns);
            match st.launch_handles(env, tensor_args@) {
                Err(_) => {},
                Ok((s1, handles_slot)) => {
                    dims_slot_ok(s1, env, *grid, fns);
                    match s1.dims_slot(env, *grid) {
                        Err(_) => {},
                        Ok((s2, grid_slot)) => {
                            dims_slot_ok(s2, env, *tg, fns);
                            match s2.dims_slot(env, *tg) {
                                Err(_) => {},
                                Ok((s3, tg_slot)) => {
                                    launch_shape_ok(s3, env, out_shape, fns);
                                    match s3.launch_shape(env, out_shape) {
                                        Err(_) => {},
                                        Ok((s4, out_ptr, out_rank)) => {
                                            let (s5, dt) = s4.iconst(
                                                ClTy::I32,
                                                match e.ty {
                                                    ResolvedTy::Tensor { dtype } =>
                                                        dtype.code() as int,
                                                    _ => 0,
                                                },
                                            );
                                            uniform_block_ok(s5, env, scalar_args@, fns);
                                            match s5.uniform_block(env, scalar_args@) {
                                                Err(_) => {},
                                                Ok((s6, uni_ptr, uni_size)) => {
                                                    launch_ok(
                                                        s6,
                                                        env.kernels[kernel@],
                                                        handles_slot,
                                                        tensor_args@.len(),
                                                        grid_slot,
                                                        tg_slot,
                                                        out_ptr,
                                                        out_rank,
                                                        dt,
                                                        uni_ptr,
                                                        uni_size,
                                                        fns,
                                                    );
                                                },
                                            }
                                        },
                                    }
                                },
                            }
                        },
                    }
                },
            }
        },
        _ => {},
    }
}

} // verus!
