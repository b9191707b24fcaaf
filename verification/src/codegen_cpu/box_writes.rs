//! That the code of an assignment to a cell of a box gives up what the cell
//! held and writes the new value.

use crate::codegen_cpu::box_stmts;
use crate::codegen_cpu::flow;
use crate::codegen_cpu::inst::{ClTy, Inst, Val};
use crate::codegen_cpu::layout;
use crate::codegen_cpu::machine;
use crate::codegen_cpu::machine::{Event, Mach, Prog, Store};
use crate::codegen_cpu::meaning;
use crate::codegen_cpu::meaning::{Sort, World};
use crate::codegen_cpu::release_layout;
use crate::codegen_cpu::release_runs;
use crate::codegen_cpu::running;
use crate::codegen_cpu::scheme_stmt::LoopExits;
use crate::codegen_cpu::state;
use crate::codegen_cpu::state::{EnvView, Fail, St};
use crate::typed::{ResolvedTy, TypedAssignTarget, TypedExpr, TypedStmt};
use vstd::prelude::*;

verus! {

/// The name of the box that is written to.
spec fn base_of(target: TypedAssignTarget) -> Seq<char> {
    match target {
        TypedAssignTarget::Index { base, .. } => base@,
        TypedAssignTarget::ListIndex { base, .. } => base@,
        TypedAssignTarget::Field { base, .. } => base@,
        _ => Seq::empty(),
    }
}

/// The index of the element that is written to.
spec fn index_of(target: TypedAssignTarget) -> TypedExpr {
    match target {
        TypedAssignTarget::Index { index, .. } => *index,
        TypedAssignTarget::ListIndex { index, .. } => *index,
        _ => arbitrary(),
    }
}

spec fn elem_of(target: TypedAssignTarget) -> ResolvedTy {
    match target {
        TypedAssignTarget::Index { elem_ty, .. } => elem_ty,
        TypedAssignTarget::ListIndex { elem_ty, .. } => elem_ty,
        TypedAssignTarget::Field { field_ty, .. } => field_ty,
        _ => arbitrary(),
    }
}

spec fn header_of(target: TypedAssignTarget) -> i64 {
    if target is Index {
        0
    } else {
        16
    }
}

/// The code up to the address that is written to, that address, and the offset
/// behind it.
spec fn addressed(st: St, env: EnvView, target: TypedAssignTarget) -> (St, Val, i32) {
    let (s1, ptr) = st.val(Inst::UseVar { var: st.vars[base_of(target)] });
    match target {
        TypedAssignTarget::Field { slot_idx, .. } => (
            s1,
            ptr,
            state::slot_offset(8, slot_idx as nat),
        ),
        _ => {
            let (s2, i) = s1.expr(env, index_of(target))->Ok_0;
            let (s3, addr) = s2.slot_addr(ptr, i, header_of(target));
            (s3, addr, 0i32)
        },
    }
}

/// The address is computed first, then the new value; then what the cell held
/// is given up and the value is written.
proof fn write_shape(
    st: St,
    env: EnvView,
    exits: LoopExits,
    s: TypedStmt,
    sorts: Map<Seq<char>, Sort>,
    looped: bool,
)
    requires
        st.binds(sorts),
        flow::core_stmt(s, sorts, looped),
        s is Assign,
        !(s->Assign_target is Ident),
    ensures
        ({
            let target = s->Assign_target;
            let (s1, ptr) = st.val(Inst::UseVar { var: st.vars[base_of(target)] });
            let (s3, addr, offset) = addressed(st, env, target);
            let (s4, v) = s3.expr(env, s->Assign_expr)->Ok_0;
            let s5 = s4.drop_field(addr, offset, elem_of(target));
            let t = s5.store(v, addr, offset);
            &&& flow::is_word(sorts, base_of(target))
            &&& s3.binds(sorts)
            &&& s3.expr(env, s->Assign_expr) is Ok
            &&& st.stmt(env, exits, s) == Ok::<(St, bool), Fail>((t, false))
            &&& st.adds(t)
            &&& s1.grows_to(s3)
            &&& st.grows_to(s3)
            &&& s3.vars == st.vars
            &&& s3.grows_to(s4)
            &&& s4.grows_to(s5)
            &&& s5.grows_to(t)
            &&& s3.grows_to(t)
            &&& s4.fits() ==> v.0 < s4.code.len() && s4.val_ty(v) == Some(
                s->Assign_expr.ty.whole(),
            )
            &&& s3.fits() ==> addr.0 < s3.code.len()
            &&& !(target is Field) ==> {
                let (s2, i) = s1.expr(env, index_of(target))->Ok_0;
                &&& s1.binds(sorts)
                &&& s1.expr(env, index_of(target)) is Ok
                &&& s1.grows_to(s2)
                &&& s2.grows_to(s3)
                &&& s2.fits() ==> s2.val_ty(i) == Some(ClTy::I64)
            }
        }),
{
    let target = s->Assign_target;
    let expr = s->Assign_expr;
    let n = base_of(target);
    let i0 = Inst::UseVar { var: st.vars[n] };
    let (s1, ptr) = st.val(i0);
    release_layout::adds_emit(st, i0);
    meaning::binds_on(st, s1, sorts);
    let (s3, addr, offset) = addressed(st, env, target);
    if !(target is Field) {
        let index = index_of(target);
        meaning::integers_are_lowered(s1, env, index, sorts);
        let (s2, i) = s1.expr(env, index)->Ok_0;
        assert(index.ty.machine() == Some(ClTy::I64));
        assert(s1.adds(s2));
        release_layout::slot_addr_laid_out(s2, ptr, i, header_of(target));
        release_layout::adds_on(s1, s2, s3);
    }
    assert(s1.adds(s3));
    release_layout::adds_on(st, s1, s3);
    meaning::binds_on(st, s3, sorts);
    meaning::integers_are_lowered(s3, env, expr, sorts);
    let (s4, v) = s3.expr(env, expr)->Ok_0;
    assert(expr.ty.machine() == Some(expr.ty.whole()));
    assert(s3.adds(s4));
    release_layout::field_laid_out(s4, addr, offset, elem_of(target));
    let s5 = s4.drop_field(addr, offset, elem_of(target));
    let t = s5.store(v, addr, offset);
    release_layout::adds_emit(s5, Inst::Store { val: v, base: addr, offset });
    release_layout::adds_on(s3, s4, s5);
    release_layout::adds_on(s3, s5, t);
    release_layout::adds_on(st, s3, t);
    assert(st.stmt(env, exits, s) == st.assign(env, target, expr));
    assert(st.assign(env, target, expr) == Ok::<(St, bool), Fail>((t, false)));
}

/// The code of such an assignment can be generated.
pub proof fn write_lowered(
    st: St,
    env: EnvView,
    exits: LoopExits,
    s: TypedStmt,
    sorts: Map<Seq<char>, Sort>,
    looped: bool,
)
    requires
        layout::ready(st, sorts),
        flow::core_stmt(s, sorts, looped),
        s is Assign,
        !(s->Assign_target is Ident),
    ensures
        st.stmt(env, exits, s) is Ok,
        layout::extended(st, st.stmt(env, exits, s)->Ok_0.0, sorts, sorts),
{
    reveal(layout::ready);
    reveal(layout::extended);
    write_shape(st, env, exits, s, sorts, looped);
    let t = st.stmt(env, exits, s)->Ok_0.0;
    meaning::binds_on(st, t, sorts);
}

/// The address of an element is computed.
proof fn address_run(
    p: Prog,
    st: St,
    env: EnvView,
    exits: LoopExits,
    s: TypedStmt,
    sorts: Map<Seq<char>, Sort>,
    looped: bool,
    names: World,
    m: Mach,
) -> (e: Mach)
    requires
        st.binds(sorts),
        flow::core_stmt(s, sorts, looped),
        s is Assign,
        !(s->Assign_target is Ident),
        p.contains(st.stmt(env, exits, s)->Ok_0.0),
        m.pc == st.code.len(),
        meaning::agrees(st.vars, sorts, names, m.store),
        flow::place(s->Assign_target, names) is Some,
    ensures
        ({
            let (s3, addr, offset) = addressed(st, env, s->Assign_target);
            &&& p.contains(s3)
            &&& p.reaches(m, Event::Go(e))
            &&& e.pc == s3.code.len()
            &&& e.store == m.store
            &&& m.keeps(e, st.code.len())
            &&& e.has(addr)
            &&& flow::place(s->Assign_target, names) == Some(
                (e.val(addr) + offset, elem_of(s->Assign_target)),
            )
        }),
{
    write_shape(st, env, exits, s, sorts, looped);
    let target = s->Assign_target;
    let n = base_of(target);
    let t = st.stmt(env, exits, s)->Ok_0.0;
    let (s1, ptr) = st.val(Inst::UseVar { var: st.vars[n] });
    let (s3, addr, offset) = addressed(st, env, target);
    meaning::contains_on(p, s3, t);
    meaning::grows_on(s1, s3, t);
    let m1 = box_stmts::word_read(p, st, t, sorts, names, n, m);
    if target is Field {
        m1
    } else {
        let index = index_of(target);
        let (s2, i) = s1.expr(env, index)->Ok_0;
        meaning::contains_on(p, s2, s3);
        assert(flow::sort_of(index) is Integer);
        let m2 = running::value_run(p, s1, env, index, sorts, names, m1);
        machine::reach_on(p, m, m1, Event::Go(m2));
        meaning::keeps_on(m, m1, m2, st.code.len(), s1.code.len());
        assert(m2.vals.contains_key(ptr.0 as nat));
        assert(m2.vals[ptr.0 as nat] == m1.vals[ptr.0 as nat]);
        assert(s2.code[ptr.0 as int] == s1.code[ptr.0 as int]);
        meaning::address_runs(p, s2, ptr, i, header_of(target), m2);
        let k = (s3.code.len() - s2.code.len()) as nat;
        assert(p.run(m2, k) == p.between(m2, s2, s3));
        let e = p.between(m2, s2, s3)->Go_0;
        assert(p.reaches(m2, Event::Go(e)));
        machine::reach_on(p, m, m2, Event::Go(e));
        meaning::keeps_on(m, m2, e, st.code.len(), s2.code.len());
        e
    }
}

/// The code of such an assignment does what the assignment does.
pub proof fn write_runs(
    p: Prog,
    st: St,
    env: EnvView,
    exits: LoopExits,
    s: TypedStmt,
    sorts: Map<Seq<char>, Sort>,
    looped: bool,
    names: World,
    fuel: nat,
    m: Mach,
)
    requires
        p.stmt_at(st, env, exits, s, sorts, looped, names, fuel, m),
        s is Assign,
        !(s->Assign_target is Ident),
    ensures
        p.runs_stmt(st, env, exits, s, sorts, names, fuel, m),
{
    write_shape(st, env, exits, s, sorts, looped);
    let target = s->Assign_target;
    let expr = s->Assign_expr;
    let ty = elem_of(target);
    let t = st.stmt(env, exits, s)->Ok_0.0;
    let (s3, addr, offset) = addressed(st, env, target);
    let (s4, v) = s3.expr(env, expr)->Ok_0;
    let s5 = s4.drop_field(addr, offset, ty);
    meaning::contains_on(p, s5, t);
    meaning::contains_on(p, s4, s5);
    let m3 = address_run(p, st, env, exits, s, sorts, looped, names, m);
    let (at, _) = flow::place(target, names)->0;
    let x = meaning::meaning(expr, names)->0;
    assert(flow::sort_of(expr) is Integer);
    let m4 = running::value_run(p, s3, env, expr, sorts, names, m3);
    machine::reach_on(p, m, m3, Event::Go(m4));
    meaning::keeps_on(m, m3, m4, st.code.len(), s3.code.len());
    assert(m4.vals.contains_key(addr.0 as nat));
    assert(m4.vals[addr.0 as nat] == m3.vals[addr.0 as nat]);
    let m5 = release_runs::field_runs(p, names.heap.cells, s4, addr, offset, ty, m4);
    machine::reach_on(p, m, m4, Event::Go(m5));
    let acts = ty.slot_gives_up(names.heap.cells, at);
    release_runs::carries_then(m, m4, m5, st.code.len(), s4.code.len(), acts);
    let store = Inst::Store { val: v, base: addr, offset };
    running::step_on(p, m, m5, t, store);
    assert(m5.has(v) && m5.val(v) == x);
    assert(m5.has(addr) && m5.val(addr) + offset == at);
    assert(p.insts[v.0 as int] == s4.code[v.0 as int]);
    let e = Mach {
        pc: m5.pc + 1,
        store: Store { heap: m5.store.heap.writing(at, expr.ty.whole(), x), ..m5.store },
        ..m5
    };
    assert(p.step(m5) == Event::Go(e));
    let after = flow::written(target, expr, names)->0;
    box_stmts::agrees_behind(st, sorts, names, after, m, e);
    reveal(Prog::follows);
    assert(p.arrives(m, t.code.len(), t.vars, sorts, after));
}

} // verus!
