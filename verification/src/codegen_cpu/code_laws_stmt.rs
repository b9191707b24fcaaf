//! Code generated for statements and functions refers only backwards, and
//! every function ends where control leaves it.

use crate::codegen_cpu::code_laws;
use crate::codegen_cpu::code_laws_expr;
use crate::codegen_cpu::compile;
use crate::codegen_cpu::inst::{Arith, Blk, ClTy, Inst, IntCc, Val, Var};
use crate::codegen_cpu::scheme_stmt::{LoopExits, Step};
use crate::codegen_cpu::state;
use crate::codegen_cpu::state::{EnvView, St};
use crate::codegen_cpu::symbols::RtSym;
use crate::typed::{
    DropVariant, ResolvedTy, TypedAssignTarget, TypedExpr, TypedFn, TypedMatchArm, TypedParam,
    TypedProgram, TypedStmt,
};
use vstd::prelude::*;

verus! {

/// Whether control leaves the block behind an instruction.
pub open spec fn leaves(i: Inst) -> bool {
    i is Jump || i is Brif || i is Return || i is ReturnVoid || i is Trap
}

impl St {
    /// Whether the last instruction leaves its block.
    pub open spec fn ended(self) -> bool {
        self.code.len() > 0 && leaves(self.code.last())
    }

    /// Whether the exits of the innermost loop are known blocks.
    pub open spec fn has_exits(self, exits: LoopExits) -> bool {
        exits matches Some((next, out)) ==> self.has_blk(next) && self.has_blk(out)
    }

    /// Where lowering a statement succeeds: the new state is sound, and where
    /// control leaves for good the last instruction says so.
    pub open spec fn steps(self, r: Step, fns: nat) -> bool {
        match r {
            Ok((after, left)) => self.leads(after, fns) && (left ==> after.ended()),
            Err(_) => true,
        }
    }
}

proof fn blocks_ok(st: St, n: nat, fns: nat)
    requires
        st.ok(fns),
    ensures
        st.leads(st.blocks(n), fns),
        st.blocks(n).code.len() == st.code.len() + n,
        st.blocks(n).has_row(st.code.len(), n),
    decreases n,
{
    broadcast use code_laws::group_code;

    if n == 0 {
        code_laws::grows_same(st);
        reveal(St::has_row);
    } else {
        blocks_ok(st, (n - 1) as nat, fns);
        let mid = st.blocks((n - 1) as nat);
        let done = mid.emit(Inst::Block);
        assert(st.blocks(n) == done);
        assert(mid.leads(done, fns));
        assert(done.has_row(st.code.len(), n)) by {
            reveal(St::has_row);
        }
    }
}

/// The blocks of a switch over `n` tags: one test per tag and a fallback.
proof fn switch_ok(st: St, n: nat, fns: nat)
    requires
        st.ok(fns),
    ensures
        st.leads(st.blocks(n).blk().0, fns),
        st.blocks(n).blk().0.has_blk(st.blocks(n).blk().1),
        st.blocks(n).blk().0.has_row(st.code.len(), n + 1),
{
    broadcast use code_laws::group_code;

    blocks_ok(st, n, fns);
    let mid = st.blocks(n);
    let (done, last) = mid.blk();
    assert(mid.leads(done, fns));
    assert(done.has_row(st.code.len(), n + 1)) by {
        reveal(St::has_row);
    }
}

proof fn open_arm_ok(st: St, tag: Val, expected: u32, first: nat, i: nat, n: nat, fns: nat)
    requires
        st.ok(fns),
        st.has_val(tag),
        st.has_row(first, n + 1),
        i < n,
    ensures
        st.leads(st.open_arm(tag, expected, first, i), fns),
{
    broadcast use code_laws::group_code;

    code_laws::row_member(st, first, n + 1, i);
    code_laws::row_member(st, first, n + 1, i + 1);
}

proof fn index_var_ok(st: St, fns: nat)
    requires
        st.ok(fns),
    ensures
        st.leads(st.index_var().0, fns),
        st.index_var().0.has_var(st.index_var().1),
{
    broadcast use code_laws::group_code;

}

proof fn advance_ok(st: St, var: Var, header: Blk, fns: nat)
    requires
        st.ok(fns),
        st.has_var(var),
        st.has_blk(header),
    ensures
        st.leads(st.advance(var, header), fns),
{
    broadcast use code_laws::group_code;

}

proof fn drop_field_ok(st: St, base: Val, offset: i32, ty: ResolvedTy, fns: nat)
    requires
        st.ok(fns),
        st.has_val(base),
    ensures
        st.leads(st.drop_field(base, offset, ty), fns),
    decreases ty, 0nat,
{
    broadcast use code_laws::group_code;

    let (a, nested) = st.load(ClTy::I64, base, offset);
    match ty {
        ResolvedTy::Tensor { dtype } => {},
        ResolvedTy::Struct { name, fields } => {
            drop_slots_ok(a, nested, 8, fields@, 0, fns);
        },
        ResolvedTy::Enum { name, variants } => {
            drop_enum_ok(a, nested, variants@, fns);
        },
        _ => {
            code_laws::grows_same(st);
        },
    }
}

proof fn drop_slots_ok(
    st: St,
    ptr: Val,
    base: i32,
    fields: Seq<(String, ResolvedTy)>,
    i: nat,
    fns: nat,
)
    requires
        st.ok(fns),
        st.has_val(ptr),
    ensures
        st.leads(st.drop_slots(ptr, base, fields, i), fns),
    decreases fields, fields.len() - i,
{
    broadcast use code_laws::group_code;

    if i >= fields.len() {
        code_laws::grows_same(st);
    } else {
        let offset = state::slot_offset(base, i);
        drop_field_ok(st, ptr, offset, fields[i as int].1, fns);
        let a = st.drop_field(ptr, offset, fields[i as int].1);
        drop_slots_ok(a, ptr, base, fields, i + 1, fns);
    }
}

/// Leaving a switch for its merge block and giving up the box.
proof fn switch_done_ok(st: St, unreachable: Blk, merge: Blk, ptr: Val, fns: nat)
    requires
        st.ok(fns),
        st.has_blk(unreachable),
        st.has_blk(merge),
        st.has_val(ptr),
    ensures
        st.leads(
            st.close_arms(unreachable).enter(merge).act(RtSym::AggregateRelease, ptr),
            fns,
        ),
{
    broadcast use code_laws::group_code;

}

proof fn drop_enum_ok(
    st: St,
    ptr: Val,
    variants: Seq<(String, Vec<(String, ResolvedTy)>)>,
    fns: nat,
)
    requires
        st.ok(fns),
        st.has_val(ptr),
    ensures
        st.leads(st.drop_enum(ptr, variants), fns),
    decreases variants, variants.len() + 1,
{
    broadcast use code_laws::group_code;

    let (a, tag) = st.load(ClTy::I32, ptr, 8);
    let (b, merge) = a.blk();
    let first = b.code.len();
    switch_ok(b, variants.len(), fns);
    let (c, unreachable) = b.blocks(variants.len()).blk();
    if variants.len() > 0 {
        code_laws::row_member(c, first, variants.len() + 1, 0);
        let d = c.jump(Blk(first as usize));
        assert(c.leads(d, fns));
        drop_arms_ok(d, ptr, tag, merge, first, variants, 0, fns);
        let f = d.drop_arms(ptr, tag, merge, first, variants, 0);
        switch_done_ok(f, unreachable, merge, ptr, fns);
    }
}

proof fn drop_arms_ok(
    st: St,
    ptr: Val,
    tag: Val,
    merge: Blk,
    first: nat,
    variants: Seq<(String, Vec<(String, ResolvedTy)>)>,
    i: nat,
    fns: nat,
)
    requires
        st.ok(fns),
        st.has_val(ptr),
        st.has_val(tag),
        st.has_blk(merge),
        st.has_row(first, variants.len() + 1),
    ensures
        st.leads(st.drop_arms(ptr, tag, merge, first, variants, i), fns),
    decreases variants, variants.len() - i,
{
    broadcast use code_laws::group_code;

    if i >= variants.len() {
        code_laws::grows_same(st);
    } else {
        open_arm_ok(st, tag, i as u32, first, i, variants.len(), fns);
        let a = st.open_arm(tag, i as u32, first, i);
        drop_slots_ok(a, ptr, 16, variants[i as int].1@, 0, fns);
        let b = a.drop_slots(ptr, 16, variants[i as int].1@, 0);
        let c = b.jump(merge);
        drop_arms_ok(c, ptr, tag, merge, first, variants, i + 1, fns);
    }
}

proof fn drop_listed_ok(
    st: St,
    ptr: Val,
    base: i32,
    slots: Seq<(usize, ResolvedTy)>,
    k: nat,
    fns: nat,
)
    requires
        st.ok(fns),
        st.has_val(ptr),
    ensures
        st.leads(st.drop_listed(ptr, base, slots, k), fns),
    decreases slots.len() - k,
{
    broadcast use code_laws::group_code;

    if k >= slots.len() {
        code_laws::grows_same(st);
    } else {
        let offset = state::slot_offset(base, slots[k as int].0 as nat);
        drop_field_ok(st, ptr, offset, slots[k as int].1, fns);
        let a = st.drop_field(ptr, offset, slots[k as int].1);
        drop_listed_ok(a, ptr, base, slots, k + 1, fns);
    }
}

proof fn drop_enum_listed_ok(st: St, ptr: Val, variants: Seq<DropVariant>, fns: nat)
    requires
        st.ok(fns),
        st.has_val(ptr),
    ensures
        st.leads(st.drop_enum_listed(ptr, variants), fns),
{
    broadcast use code_laws::group_code;

    let (a, tag) = st.load(ClTy::I32, ptr, 8);
    let (b, merge) = a.blk();
    let first = b.code.len();
    switch_ok(b, variants.len(), fns);
    let (c, unreachable) = b.blocks(variants.len()).blk();
    if variants.len() > 0 {
        code_laws::row_member(c, first, variants.len() + 1, 0);
        let d = c.jump(Blk(first as usize));
        assert(c.leads(d, fns));
        drop_arms_listed_ok(d, ptr, tag, merge, first, variants, 0, fns);
        let f = d.drop_arms_listed(ptr, tag, merge, first, variants, 0);
        switch_done_ok(f, unreachable, merge, ptr, fns);
    }
}

proof fn drop_arms_listed_ok(
    st: St,
    ptr: Val,
    tag: Val,
    merge: Blk,
    first: nat,
    variants: Seq<DropVariant>,
    i: nat,
    fns: nat,
)
    requires
        st.ok(fns),
        st.has_val(ptr),
        st.has_val(tag),
        st.has_blk(merge),
        st.has_row(first, variants.len() + 1),
    ensures
        st.leads(st.drop_arms_listed(ptr, tag, merge, first, variants, i), fns),
    decreases variants.len() - i,
{
    broadcast use code_laws::group_code;

    if i >= variants.len() {
        code_laws::grows_same(st);
    } else {
        let v = variants[i as int];
        open_arm_ok(st, tag, v.tag, first, i, variants.len(), fns);
        let a = st.open_arm(tag, v.tag, first, i);
        drop_listed_ok(a, ptr, 16, v.fields@, 0, fns);
        let b = a.drop_listed(ptr, 16, v.fields@, 0);
        let c = b.jump(merge);
        drop_arms_listed_ok(c, ptr, tag, merge, first, variants, i + 1, fns);
    }
}

proof fn drop_element_ok(st: St, handle: Val, elem: ResolvedTy, fns: nat)
    requires
        st.ok(fns),
        st.has_val(handle),
    ensures
        st.leads(st.drop_element(handle, elem), fns),
    decreases elem, 0nat,
{
    broadcast use code_laws::group_code;

    match elem {
        ResolvedTy::Tensor { dtype } => {},
        ResolvedTy::Struct { name, fields } => {
            drop_slots_ok(st, handle, 8, fields@, 0, fns);
        },
        ResolvedTy::Enum { name, variants } => {
            drop_enum_ok(st, handle, variants@, fns);
        },
        ResolvedTy::Array { elem: inner, len } => {
            code_laws::grows_same(st);
            counted_drop_ok(st, handle, *inner, len, fns);
        },
        _ => {
            code_laws::grows_same(st);
        },
    }
}

proof fn counted_drop_ok(st: St, arr: Val, elem: ResolvedTy, len: usize, fns: nat)
    requires
        st.ok(fns),
        st.has_val(arr),
    ensures
        st.leads(st.counted_drop(arr, elem, len), fns),
    decreases elem, 1nat,
{
    broadcast use code_laws::group_code;

    index_var_ok(st, fns);
    let (a, var) = st.index_var();
    let (b, header) = a.blk();
    let (c, body) = b.blk();
    let (d, exit) = c.blk();
    let e = d.jump(header).switch_to(header);
    let (f, cur) = e.read_var(var);
    let (g, limit) = f.val(Inst::Iconst { ty: ClTy::I64, imm: len as i64 });
    let h = g.test_index(cur, limit, body, exit).enter(body);
    assert(g.leads(h, fns));
    let (i, at) = h.read_var(var);
    code_laws_expr::slot_addr_ok(i, arr, at, 0, fns);
    let (j, addr) = i.slot_addr(arr, at, 0);
    let (k, handle) = j.load(ClTy::I64, addr, 0);
    drop_element_ok(k, handle, elem, fns);
    let l = k.drop_element(handle, elem);
    advance_ok(l, var, header, fns);
}

proof fn list_drop_ok(st: St, list: Val, len: Val, fns: nat)
    requires
        st.ok(fns),
        st.has_val(list),
        st.has_val(len),
    ensures
        st.leads(st.list_drop(list, len), fns),
{
    broadcast use code_laws::group_code;

    index_var_ok(st, fns);
    let (a, var) = st.index_var();
    let (b, header) = a.blk();
    let (c, body) = b.blk();
    let (d, exit) = c.blk();
    let e = d.jump(header).switch_to(header);
    let (f, cur) = e.read_var(var);
    let h = f.test_index(cur, len, body, exit).enter(body);
    assert(f.leads(h, fns));
    let (i, at) = h.read_var(var);
    code_laws_expr::slot_addr_ok(i, list, at, 16, fns);
    let (j, addr) = i.slot_addr(list, at, 16);
    let (k, handle) = j.load(ClTy::I64, addr, 0);
    let l = k.act(RtSym::TensorRelease, handle);
    assert(k.leads(l, fns));
    advance_ok(l, var, header, fns);
}

proof fn drop_list_ok(st: St, ptr: Val, elem: ResolvedTy, fns: nat)
    requires
        st.ok(fns),
        st.has_val(ptr),
    ensures
        st.leads(st.drop_list(ptr, elem), fns),
{
    broadcast use code_laws::group_code;

    let (a, count) = st.load(ClTy::I64, ptr, 0);
    let (b, one) = a.iconst(ClTy::I64, 1);
    let (c, is_last) = b.int_test(IntCc::Equal, count, one);
    let (d, last) = c.blk();
    let (e, merge) = d.blk();
    let f = e.brif(is_last, last, merge).enter(last);
    assert(e.leads(f, fns));
    let (g, len) = f.load(ClTy::I64, ptr, 8);
    list_drop_ok(g, ptr, len, fns);
}

proof fn bind_new_ok(st: St, name: Seq<char>, ty: ClTy, v: Val, fns: nat)
    requires
        st.ok(fns),
        st.has_val(v),
    ensures
        st.leads(st.bind_new(name, ty, v), fns),
{
    broadcast use code_laws::group_code;

}

proof fn bind_fields_ok(
    st: St,
    ptr: Val,
    names: Seq<(String, ResolvedTy)>,
    i: nat,
    retain: bool,
    fns: nat,
)
    requires
        st.ok(fns),
        st.has_val(ptr),
    ensures
        st.leads(st.bind_fields(ptr, names, i, retain), fns),
    decreases names.len() - i,
{
    broadcast use code_laws::group_code;

    code_laws::grows_same(st);
    if i < names.len() {
        let (name, ty) = names[i as int];
        match ty.machine() {
            None => {
                bind_fields_ok(st, ptr, names, i + 1, retain, fns);
            },
            Some(t) => {
                let (a, v) = st.load(t, ptr, state::slot_offset(8, i));
                code_laws::grows_same(a);
                let b = if retain && ty is Tensor {
                    a.act(RtSym::TensorRetain, v)
                } else {
                    a
                };
                assert(a.leads(b, fns));
                bind_new_ok(b, name@, t, v, fns);
                bind_fields_ok(b.bind_new(name@, t, v), ptr, names, i + 1, retain, fns);
            },
        }
    }
}

proof fn bind_payload_ok(
    st: St,
    ptr: Val,
    bindings: Seq<(String, ResolvedTy)>,
    j: nat,
    fns: nat,
)
    requires
        st.ok(fns),
        st.has_val(ptr),
    ensures
        st.leads(st.bind_payload(ptr, bindings, j), fns),
    decreases bindings.len() - j,
{
    broadcast use code_laws::group_code;

    code_laws::grows_same(st);
    if j < bindings.len() {
        let (name, ty) = bindings[j as int];
        match ty.machine() {
            None => {
                bind_payload_ok(st, ptr, bindings, j + 1, fns);
            },
            Some(t) => {
                let (a, v) = st.load(t, ptr, state::slot_offset(16, j));
                bind_new_ok(a, name@, t, v, fns);
                bind_payload_ok(a.bind_new(name@, t, v), ptr, bindings, j + 1, fns);
            },
        }
    }
}

proof fn use_var_ok(st: St, name: Seq<char>, fns: nat)
    requires
        st.ok(fns),
    ensures
        st.lowers(st.use_var(name), fns),
{
    broadcast use code_laws::group_code;

}

proof fn act_on_ok(st: St, name: Seq<char>, sym: RtSym, fns: nat)
    requires
        st.ok(fns),
        sym.arity() == 1,
    ensures
        st.steps(st.act_on(name, sym), fns),
{
    broadcast use code_laws::group_code;

    use_var_ok(st, name, fns);
}

proof fn drop_box_ok(st: St, name: Seq<char>, slots: Seq<(usize, ResolvedTy)>, fns: nat)
    requires
        st.ok(fns),
    ensures
        st.steps(st.drop_box(name, slots), fns),
{
    broadcast use code_laws::group_code;

    use_var_ok(st, name, fns);
    match st.use_var(name) {
        Err(_) => {},
        Ok((a, ptr)) => {
            drop_listed_ok(a, ptr, 8, slots, 0, fns);
        },
    }
}

proof fn assign_slot_ok(
    st: St,
    env: EnvView,
    base: Seq<char>,
    index: TypedExpr,
    elem_ty: ResolvedTy,
    header: i64,
    e: TypedExpr,
    fns: nat,
)
    requires
        st.ok(fns),
        code_laws::sound_env(env, fns),
    ensures
        st.steps(st.assign_slot(env, base, index, elem_ty, header, e), fns),
{
    broadcast use code_laws::group_code;

    use_var_ok(st, base, fns);
    match st.use_var(base) {
        Err(_) => {},
        Ok((a, ptr)) => {
            code_laws_expr::expr_ok(a, env, index, fns);
            match a.expr(env, index) {
                Err(_) => {},
                Ok((b, i)) => {
                    code_laws_expr::slot_addr_ok(b, ptr, i, header, fns);
                    let (c, addr) = b.slot_addr(ptr, i, header);
                    code_laws_expr::expr_ok(c, env, e, fns);
                    match c.expr(env, e) {
                        Err(_) => {},
                        Ok((d, v)) => {
                            drop_field_ok(d, addr, 0, elem_ty, fns);
                        },
                    }
                },
            }
        },
    }
}

proof fn assign_ok(st: St, env: EnvView, target: TypedAssignTarget, e: TypedExpr, fns: nat)
    requires
        st.ok(fns),
        code_laws::sound_env(env, fns),
    ensures
        st.steps(st.assign(env, target, e), fns),
{
    broadcast use code_laws::group_code;

    match target {
        TypedAssignTarget::Ident(name) => {
            code_laws_expr::expr_ok(st, env, e, fns);
        },
        TypedAssignTarget::Index { base, index, elem_ty } => {
            assign_slot_ok(st, env, base@, *index, elem_ty, 0, e, fns);
        },
        TypedAssignTarget::ListIndex { base, index, elem_ty } => {
            assign_slot_ok(st, env, base@, *index, elem_ty, 16, e, fns);
        },
        TypedAssignTarget::Field { base, slot_idx, field_ty } => {
            use_var_ok(st, base@, fns);
            match st.use_var(base@) {
                Err(_) => {},
                Ok((a, ptr)) => {
                    code_laws_expr::expr_ok(a, env, e, fns);
                    match a.expr(env, e) {
                        Err(_) => {},
                        Ok((b, v)) => {
                            drop_field_ok(
                                b,
                                ptr,
                                state::slot_offset(8, slot_idx as nat),
                                field_ty,
                                fns,
                            );
                        },
                    }
                },
            }
        },
        TypedAssignTarget::BufferIndex { base, index, elem_ty } => {
            use_var_ok(st, base@, fns);
            match st.use_var(base@) {
                Err(_) => {},
                Ok((a, handle)) => {
                    code_laws_expr::expr_ok(a, env, *index, fns);
                    match a.expr(env, *index) {
                        Err(_) => {},
                        Ok((b, i)) => {
                            code_laws_expr::expr_ok(b, env, e, fns);
                        },
                    }
                },
            }
        },
    }
}

/// A statement refers only backwards, and where it leaves for good its last
/// instruction does.
pub proof fn stmt_ok(st: St, env: EnvView, exits: LoopExits, s: TypedStmt, fns: nat)
    requires
        st.ok(fns),
        code_laws::sound_env(env, fns),
        st.has_exits(exits),
    ensures
        st.steps(st.stmt(env, exits, s), fns),
    decreases s, 1nat,
{
    broadcast use code_laws::group_code;

    match s {
        TypedStmt::Let { name, expr } => {
            code_laws_expr::expr_ok(st, env, expr, fns);
            match st.expr(env, expr) {
                Err(_) => {},
                Ok((a, v)) => match expr.ty.machine() {
                    None => {},
                    Some(t) => {
                        bind_new_ok(a, name@, t, v, fns);
                    },
                },
            }
        },
        TypedStmt::Return { expr } => {
            code_laws_expr::expr_ok(st, env, expr, fns);
        },
        TypedStmt::Expr(e) => {
            code_laws_expr::expr_ok(st, env, e, fns);
        },
        TypedStmt::Assign { target, expr } => {
            assign_ok(st, env, target, expr, fns);
        },
        TypedStmt::GpuBarrier => {},
        TypedStmt::If { condition, then_body, else_body } => {
            if_ok(st, env, exits, s, fns);
        },
        TypedStmt::For { var, start, end, body } => {
            for_ok(st, env, s, fns);
        },
        TypedStmt::While { condition, body } => {
            while_ok(st, env, s, fns);
        },
        TypedStmt::ForIn { var, iter, body } => {
            for_in_ok(st, env, s, fns);
        },
        TypedStmt::Break | TypedStmt::Continue => {},
        TypedStmt::Drop { name } => {
            act_on_ok(st, name@, RtSym::TensorFree, fns);
        },
        TypedStmt::Retain { name } => {
            act_on_ok(st, name@, RtSym::TensorRetain, fns);
        },
        TypedStmt::Release { name } => {
            act_on_ok(st, name@, RtSym::TensorRelease, fns);
        },
        TypedStmt::RetainAgg { name } => {
            act_on_ok(st, name@, RtSym::AggregateRetain, fns);
        },
        TypedStmt::ReleaseAgg { name } => {
            act_on_ok(st, name@, RtSym::AggregateRelease, fns);
        },
        TypedStmt::DropBuffer { name } => {
            act_on_ok(st, name@, RtSym::BufferFree, fns);
        },
        TypedStmt::DropStruct { name, droppable_fields } => {
            drop_box_ok(st, name@, droppable_fields@, fns);
        },
        TypedStmt::DropTuple { name, droppable_fields } => {
            drop_box_ok(st, name@, droppable_fields@, fns);
        },
        TypedStmt::DropEnum { name, variants } => {
            use_var_ok(st, name@, fns);
            match st.use_var(name@) {
                Err(_) => {},
                Ok((a, ptr)) => {
                    drop_enum_listed_ok(a, ptr, variants@, fns);
                },
            }
        },
        TypedStmt::DropArray { name, elem_ty, len } => {
            use_var_ok(st, name@, fns);
            match st.use_var(name@) {
                Err(_) => {},
                Ok((a, ptr)) => {
                    counted_drop_ok(a, ptr, elem_ty, len, fns);
                },
            }
        },
        TypedStmt::DropList { name, elem_ty } => {
            use_var_ok(st, name@, fns);
            match st.use_var(name@) {
                Err(_) => {},
                Ok((a, ptr)) => {
                    drop_list_ok(a, ptr, elem_ty, fns);
                },
            }
        },
        TypedStmt::LetTuple { names, expr } => {
            code_laws_expr::expr_ok(st, env, expr, fns);
            match st.expr(env, expr) {
                Err(_) => {},
                Ok((a, ptr)) => {
                    bind_fields_ok(a, ptr, names@, 0, expr.kind is Ident, fns);
                },
            }
        },
        TypedStmt::Match { scrutinee, arms } => {
            match_ok(st, env, exits, s, fns);
        },
        TypedStmt::NoGrad { body } => {
            let a = st.rt(RtSym::TapePause, seq![]).0;
            assert(st.leads(a, fns));
            all_ok(a, env, exits, body@, 0, fns);
        },
        TypedStmt::LetShared { name, elem_ty, size } => {},
    }
}

proof fn body_ok(
    st: St,
    env: EnvView,
    exits: LoopExits,
    b: Seq<TypedStmt>,
    i: nat,
    fns: nat,
)
    requires
        st.ok(fns),
        code_laws::sound_env(env, fns),
        st.has_exits(exits),
    ensures
        st.steps(st.body(env, exits, b, i), fns),
    decreases b, b.len() - i,
{
    broadcast use code_laws::group_code;

    if i >= b.len() {
        code_laws::grows_same(st);
    } else {
        stmt_ok(st, env, exits, b[i as int], fns);
        match st.stmt(env, exits, b[i as int]) {
            Ok((a, false)) => {
                body_ok(a, env, exits, b, i + 1, fns);
            },
            _ => {},
        }
    }
}

proof fn all_ok(st: St, env: EnvView, exits: LoopExits, b: Seq<TypedStmt>, i: nat, fns: nat)
    requires
        st.ok(fns),
        code_laws::sound_env(env, fns),
        st.has_exits(exits),
    ensures
        st.runs(st.all(env, exits, b, i), fns),
    decreases b, b.len() - i,
{
    broadcast use code_laws::group_code;

    if i >= b.len() {
        code_laws::grows_same(st);
    } else {
        stmt_ok(st, env, exits, b[i as int], fns);
        match st.stmt(env, exits, b[i as int]) {
            Ok((a, _)) => {
                all_ok(a, env, exits, b, i + 1, fns);
            },
            _ => {},
        }
    }
}

proof fn body_into_ok(
    st: St,
    env: EnvView,
    exits: LoopExits,
    b: Seq<TypedStmt>,
    target: Blk,
    fns: nat,
)
    requires
        st.ok(fns),
        code_laws::sound_env(env, fns),
        st.has_exits(exits),
        st.has_blk(target),
    ensures
        st.steps(st.body_into(env, exits, b, target), fns),
    decreases b, b.len() + 1,
{
    broadcast use code_laws::group_code;

    body_ok(st, env, exits, b, 0, fns);
}

proof fn if_ok(st: St, env: EnvView, exits: LoopExits, s: TypedStmt, fns: nat)
    requires
        st.ok(fns),
        code_laws::sound_env(env, fns),
        st.has_exits(exits),
    ensures
        st.steps(st.if_stmt(env, exits, s), fns),
    decreases s, 0nat,
{
    broadcast use code_laws::group_code;

    match s {
        TypedStmt::If { condition, then_body, else_body } => {
            code_laws_expr::expr_ok(st, env, condition, fns);
            match st.expr(env, condition) {
                Err(_) => {},
                Ok((a, cond)) => {
                    let (b, then_blk) = a.blk();
                    let (c, merge) = b.blk();
                    match else_body {
                        None => {
                            let d = c.brif(cond, then_blk, merge).switch_to(then_blk);
                            assert(c.leads(d, fns));
                            body_into_ok(d, env, exits, then_body@, merge, fns);
                        },
                        Some(eb) => {
                            let (d, else_blk) = c.blk();
                            let f = d.brif(cond, then_blk, else_blk).switch_to(then_blk);
                            assert(d.leads(f, fns));
                            body_into_ok(f, env, exits, then_body@, merge, fns);
                            match f.body_into(env, exits, then_body@, merge) {
                                Err(_) => {},
                                Ok((g, then_left)) => {
                                    let h = g.switch_to(else_blk);
                                    assert(g.leads(h, fns));
                                    body_into_ok(h, env, exits, eb@, merge, fns);
                                },
                            }
                        },
                    }
                },
            }
        },
        _ => {},
    }
}

proof fn for_ok(st: St, env: EnvView, s: TypedStmt, fns: nat)
    requires
        st.ok(fns),
        code_laws::sound_env(env, fns),
    ensures
        st.steps(st.for_stmt(env, s), fns),
    decreases s, 0nat,
{
    broadcast use code_laws::group_code;

    match s {
        TypedStmt::For { var, start, end, body } => {
            let (a, counter) = st.declare(ClTy::I64);
            code_laws_expr::expr_ok(a, env, start, fns);
            match a.expr(env, start) {
                Err(_) => {},
                Ok((b, from)) => {
                    let c = b.def_var(counter, from).bind(var@, counter);
                    let (d, header) = c.blk();
                    let (e, body_blk) = d.blk();
                    let (f, incr) = e.blk();
                    let (g, exit) = f.blk();
                    let h = g.jump(header).switch_to(header);
                    let (i, cur) = h.read_var(counter);
                    assert(b.leads(i, fns));
                    code_laws_expr::expr_ok(i, env, end, fns);
                    match i.expr(env, end) {
                        Err(_) => {},
                        Ok((j, limit)) => {
                            let k = j.test_index(cur, limit, body_blk, exit).switch_to(body_blk);
                            assert(j.leads(k, fns));
                            body_into_ok(k, env, Some((incr, exit)), body@, incr, fns);
                            match k.body_into(env, Some((incr, exit)), body@, incr) {
                                Err(_) => {},
                                Ok((l, _)) => {
                                    let m = l.switch_to(incr);
                                    advance_ok(m, counter, header, fns);
                                },
                            }
                        },
                    }
                },
            }
        },
        _ => {},
    }
}

proof fn while_ok(st: St, env: EnvView, s: TypedStmt, fns: nat)
    requires
        st.ok(fns),
        code_laws::sound_env(env, fns),
    ensures
        st.steps(st.while_stmt(env, s), fns),
    decreases s, 0nat,
{
    broadcast use code_laws::group_code;

    match s {
        TypedStmt::While { condition, body } => {
            let (a, header) = st.blk();
            let (b, body_blk) = a.blk();
            let (c, exit) = b.blk();
            let d = c.jump(header).switch_to(header);
            assert(c.leads(d, fns));
            code_laws_expr::expr_ok(d, env, condition, fns);
            match d.expr(env, condition) {
                Err(_) => {},
                Ok((e, cond)) => {
                    let f = e.brif(cond, body_blk, exit).switch_to(body_blk);
                    assert(e.leads(f, fns));
                    body_into_ok(f, env, Some((header, exit)), body@, header, fns);
                },
            }
        },
        _ => {},
    }
}

proof fn for_in_ok(st: St, env: EnvView, s: TypedStmt, fns: nat)
    requires
        st.ok(fns),
        code_laws::sound_env(env, fns),
    ensures
        st.steps(st.for_in_stmt(env, s), fns),
    decreases s, 0nat,
{
    broadcast use code_laws::group_code;

    match s {
        TypedStmt::ForIn { var, iter, body } => {
            code_laws_expr::expr_ok(st, env, iter, fns);
            match st.expr(env, iter) {
                Err(_) => {},
                Ok((a, ptr)) => match a.walk_range(ptr, iter.ty) {
                    None => {},
                    Some((b, len, header_bytes, elem)) => {
                        assert(a.leads(b, fns) && b.has_val(len));
                        match elem.machine() {
                            None => {},
                            Some(t) => {
                                let (c, item) = b.declare(t);
                                let d = c.bind(var@, item);
                                index_var_ok(d, fns);
                                let (e, index) = d.index_var();
                                let (f, header) = e.blk();
                                let (g, body_blk) = f.blk();
                                let (h, incr) = g.blk();
                                let (i, exit) = h.blk();
                                let j = i.jump(header).switch_to(header);
                                let (k, cur) = j.read_var(index);
                                let l = k.test_index(cur, len, body_blk, exit).switch_to(body_blk);
                                assert(k.leads(l, fns));
                                let (m, at) = l.read_var(index);
                                let (n, eight) = m.iconst(ClTy::I64, 8);
                                let (o, off) = n.arith(Arith::Imul, at, eight);
                                let (p, off) = o.val(Inst::IaddImm { val: off, imm: header_bytes });
                                let (q, addr) = p.arith(Arith::Iadd, ptr, off);
                                let (r, v) = q.load(t, addr, 0);
                                let u = r.def_var(item, v);
                                assert(l.leads(u, fns));
                                body_into_ok(u, env, Some((incr, exit)), body@, incr, fns);
                                match u.body_into(env, Some((incr, exit)), body@, incr) {
                                    Err(_) => {},
                                    Ok((w, _)) => {
                                        let x = w.switch_to(incr);
                                        assert(w.leads(x, fns));
                                        advance_ok(x, index, header, fns);
                                    },
                                }
                            },
                        }
                    },
                },
            }
        },
        _ => {},
    }
}

proof fn arms_ok(
    st: St,
    env: EnvView,
    exits: LoopExits,
    ptr: Val,
    tag: Val,
    merge: Blk,
    first: nat,
    arms: Seq<TypedMatchArm>,
    i: nat,
    all_left: bool,
    fns: nat,
)
    requires
        st.ok(fns),
        code_laws::sound_env(env, fns),
        st.has_exits(exits),
        st.has_val(ptr),
        st.has_val(tag),
        st.has_blk(merge),
        st.has_row(first, arms.len() + 1),
    ensures
        match st.arms(env, exits, ptr, tag, merge, first, arms, i, all_left) {
            Ok((after, _)) => st.leads(after, fns),
            Err(_) => true,
        },
    decreases arms, arms.len() - i,
{
    broadcast use code_laws::group_code;

    if i >= arms.len() {
        code_laws::grows_same(st);
    } else {
        let arm = arms[i as int];
        open_arm_ok(st, tag, arm.variant_index, first, i, arms.len(), fns);
        let a = st.open_arm(tag, arm.variant_index, first, i);
        bind_payload_ok(a, ptr, arm.bindings@, 0, fns);
        let b = a.bind_payload(ptr, arm.bindings@, 0);
        body_into_ok(b, env, exits, arm.body@, merge, fns);
        match b.body_into(env, exits, arm.body@, merge) {
            Err(_) => {},
            Ok((c, left)) => {
                arms_ok(
                    c,
                    env,
                    exits,
                    ptr,
                    tag,
                    merge,
                    first,
                    arms,
                    i + 1,
                    all_left && left,
                    fns,
                );
            },
        }
    }
}

proof fn match_ok(st: St, env: EnvView, exits: LoopExits, s: TypedStmt, fns: nat)
    requires
        st.ok(fns),
        code_laws::sound_env(env, fns),
        st.has_exits(exits),
    ensures
        st.steps(st.match_stmt(env, exits, s), fns),
    decreases s, 0nat,
{
    broadcast use code_laws::group_code;

    match s {
        TypedStmt::Match { scrutinee, arms } => {
            code_laws_expr::expr_ok(st, env, scrutinee, fns);
            match st.expr(env, scrutinee) {
                Err(_) => {},
                Ok((a, ptr)) => {
                    let (b, tag) = a.load(ClTy::I32, ptr, 8);
                    let (c, merge) = b.blk();
                    let first = c.code.len();
                    switch_ok(c, arms@.len(), fns);
                    let (d, unreachable) = c.blocks(arms@.len()).blk();
                    code_laws::row_member(d, first, arms@.len() + 1, 0);
                    code_laws::grows_same(d);
                    let e = if arms@.len() > 0 {
                        d.jump(Blk(first as usize))
                    } else {
                        d
                    };
                    assert(d.leads(e, fns));
                    arms_ok(e, env, exits, ptr, tag, merge, first, arms@, 0, true, fns);
                    match e.arms(env, exits, ptr, tag, merge, first, arms@, 0, true) {
                        Err(_) => {},
                        Ok((f, all_left)) => {
                            let g = f.close_arms(unreachable);
                            assert(f.leads(g, fns));
                        },
                    }
                },
            }
        },
        _ => {},
    }
}

proof fn bind_params_ok(st: St, params: Seq<TypedParam>, i: nat, fns: nat)
    requires
        st.ok(fns),
    ensures
        st.runs(st.bind_params(params, i), fns),
    decreases params.len() - i,
{
    broadcast use code_laws::group_code;

    if i >= params.len() {
        code_laws::grows_same(st);
    } else {
        match params[i as int].ty.machine() {
            None => {
                bind_params_ok(st, params, i + 1, fns);
            },
            Some(t) => {
                let (a, v) = st.val(Inst::Param { index: i as usize, ty: t });
                bind_new_ok(a, params[i as int].name@, t, v, fns);
                bind_params_ok(a.bind_new(params[i as int].name@, t, v), params, i + 1, fns);
            },
        }
    }
}

proof fn function_ok(env: EnvView, f: TypedFn, fns: nat)
    requires
        code_laws::sound_env(env, fns),
    ensures
        match state::empty_state().function(env, f) {
            Ok(st) => st.ok(fns) && st.ended(),
            Err(_) => true,
        },
{
    broadcast use code_laws::group_code;

    let st = state::empty_state();
    assert(st.ok(fns)) by {
        reveal(St::ok);
    }
    let (a, entry) = st.blk();
    let b = a.switch_to(entry);
    bind_params_ok(b, f.params@, 0, fns);
    match b.bind_params(f.params@, 0) {
        Err(_) => {},
        Ok(c) => {
            body_ok(c, env, None, f.body@, 0, fns);
        },
    }
}

/// In a compiled function every instruction refers to values, blocks,
/// variables, stack slots and texts that were introduced before it, every call
/// comes right behind its arguments and matches its callee, and the last
/// instruction leaves the function. The code has to be short enough for
/// positions to be told apart.
pub proof fn compiled_functions_are_sound(env: EnvView, f: TypedFn, fns: nat)
    requires
        code_laws::sound_env(env, fns),
        compile::fn_plan(env, f) is Ok,
        compile::fn_plan(env, f)->Ok_0.code.len() <= usize::MAX,
    ensures
        code_laws::sound_code(
            compile::fn_plan(env, f)->Ok_0.code,
            compile::fn_plan(env, f)->Ok_0.strs.len(),
            fns,
        ),
        compile::fn_plan(env, f)->Ok_0.code.len() > 0,
        leaves(compile::fn_plan(env, f)->Ok_0.code.last()),
{
    function_ok(env, f, fns);
    reveal(St::ok);
}

/// The functions of a program call only functions of the program.
pub proof fn programs_call_their_functions(program: TypedProgram, kernels: Map<Seq<char>, u64>)
    ensures
        code_laws::sound_env(compile::env_of(program, kernels), program.fns@.len()),
{
    table_is_sound(program.fns@, program.fns@.len());
}

proof fn table_is_sound(fns: Seq<TypedFn>, n: nat)
    requires
        n <= fns.len(),
    ensures
        forall|name: Seq<char>|
            #![trigger compile::fn_table(fns, n)[name]]
            compile::fn_table(fns, n).contains_key(name) ==> compile::fn_table(fns, n)[name].index
                < n,
    decreases n,
{
    if n > 0 {
        table_is_sound(fns, (n - 1) as nat);
        assert forall|name: Seq<char>|
            #![trigger compile::fn_table(fns, n)[name]]
            compile::fn_table(fns, n).contains_key(name) implies compile::fn_table(
            fns,
            n,
        )[name].index < n by {
            if name != fns[n - 1].name@ {
                assert(compile::fn_table(fns, (n - 1) as nat).contains_key(name));
                assert(compile::fn_table(fns, (n - 1) as nat)[name].index < n);
            }
        }
    }
}

} // verus!
