//! That the code which builds a box asks the runtime for it and fills it.

use crate::codegen_cpu::flow;
use crate::codegen_cpu::inst::{Callee, ClTy, Inst, Val};
use crate::codegen_cpu::machine;
use crate::codegen_cpu::machine::{Event, Mach, Prog, Store};
use crate::codegen_cpu::meaning;
use crate::codegen_cpu::meaning::{Sort, World};
use crate::codegen_cpu::release_layout;
use crate::codegen_cpu::releases;
use crate::codegen_cpu::running;
use crate::codegen_cpu::scheme_stmt::LoopExits;
use crate::codegen_cpu::state;
use crate::codegen_cpu::state::{EnvView, St};
use crate::typed::{TypedExpr, TypedExprKind, TypedStmt};
use vstd::prelude::*;

verus! {

/// The code that asks for a box, and the box.
pub open spec fn asked(st: St, e: TypedExpr) -> (St, Val) {
    let ty = if flow::is_row(e) {
        ClTy::Ptr
    } else {
        ClTy::I64
    };
    let (s1, n) = st.val(Inst::Iconst { ty, imm: flow::size(e) });
    let s2 = s1.emit(Inst::Arg { val: n });
    s2.val(Inst::Call { callee: Callee::Runtime(flow::allocator(e)), argc: 1 })
}

/// The constant in front of the members.
pub open spec fn front_const(e: TypedExpr) -> Inst {
    match e.kind {
        TypedExprKind::EnumInit { variant_index, .. } => Inst::Iconst {
            ty: ClTy::I32,
            imm: variant_index as int as i64,
        },
        _ => Inst::Iconst { ty: ClTy::I64, imm: (flow::members(e).len() as usize) as i64 },
    }
}

/// The code up to the members.
pub open spec fn fronted(st: St, e: TypedExpr) -> St {
    let (s3, ptr) = asked(st, e);
    if flow::front(e) is Some {
        let (s4, n) = s3.val(front_const(e));
        s4.store(n, ptr, 8)
    } else {
        s3
    }
}

/// A box is asked for, then its first bytes are written, then its members.
proof fn built_shape(st: St, env: EnvView, e: TypedExpr)
    requires
        flow::builds(e),
    ensures
        st.expr(env, e) == match fronted(st, e).fill(
            env,
            flow::members(e),
            0,
            asked(st, e).1,
            flow::head(e),
        ) {
            Err(x) => Err(x),
            Ok(t) => Ok((t, asked(st, e).1)),
        },
{
    let ty = if flow::is_row(e) {
        ClTy::Ptr
    } else {
        ClTy::I64
    };
    let (s1, n) = st.val(Inst::Iconst { ty, imm: flow::size(e) });
    let sym = flow::allocator(e);
    release_layout::act_unfolds(s1, sym, n);
    assert(s1.rt(sym, seq![n]) == asked(st, e)) by {
        reveal_with_fuel(St::pass_args, 2);
    }
    match e.kind {
        TypedExprKind::StructInit { name, fields } => {
            assert(st.expr(env, e) == st.boxed(env, fields@));
        },
        TypedExprKind::TupleInit { elements } => {
            assert(st.expr(env, e) == st.boxed(env, elements@));
        },
        TypedExprKind::EnumInit { variant_index, payload, max_payload_slots } => {
            assert(st.expr(env, e) == st.enum_init(
                env,
                variant_index,
                payload@,
                max_payload_slots as nat,
            ));
        },
        TypedExprKind::ArrayLiteral { elements } => {
            assert(st.expr(env, e) == st.array_literal(env, elements@, e.ty is List));
        },
        _ => {},
    }
}

proof fn fronted_laid_out(st: St, e: TypedExpr)
    requires
        st.tys.len() == st.code.len(),
    ensures
        st.adds(fronted(st, e)),
        st.adds(asked(st, e).0),
        asked(st, e).0.grows_to(fronted(st, e)),
        asked(st, e).0.fits() ==> asked(st, e).0.val_ty(asked(st, e).1) == Some(ClTy::I64),
{
    let (s3, ptr) = asked(st, e);
    assert(st.adds(s3));
    if flow::front(e) is Some {
        let (s4, n) = s3.val(front_const(e));
        assert(s3.adds(s4.store(n, ptr, 8)));
        release_layout::adds_on(st, s3, s4.store(n, ptr, 8));
    }
}

/// The code of the members can be generated.
proof fn fill_lowered(
    st: St,
    env: EnvView,
    ms: Seq<TypedExpr>,
    i: nat,
    ptr: Val,
    base: i32,
    sorts: Map<Seq<char>, Sort>,
)
    requires
        st.binds(sorts),
        forall|i: int| 0 <= i < ms.len() ==> meaning::integer_expr(#[trigger] ms[i], sorts),
    ensures
        st.fill(env, ms, i, ptr, base) is Ok,
        st.adds(st.fill(env, ms, i, ptr, base)->Ok_0),
    decreases ms.len() - i,
{
    if i < ms.len() {
        let e = ms[i as int];
        meaning::integers_are_lowered(st, env, e, sorts);
        let (s1, v) = st.expr(env, e)->Ok_0;
        let offset = state::slot_offset(base, i);
        let s2 = s1.store(v, ptr, offset);
        assert(st.adds(s1));
        release_layout::adds_emit(s1, Inst::Store { val: v, base: ptr, offset });
        release_layout::adds_on(st, s1, s2);
        meaning::binds_on(st, s2, sorts);
        fill_lowered(s2, env, ms, i + 1, ptr, base, sorts);
        release_layout::adds_on(st, s2, st.fill(env, ms, i, ptr, base)->Ok_0);
    }
}

/// The code that builds a box can be generated.
pub proof fn built_lowered(st: St, env: EnvView, e: TypedExpr, sorts: Map<Seq<char>, Sort>)
    requires
        st.binds(sorts),
        flow::built_expr(e, sorts),
    ensures
        match st.expr(env, e) {
            Err(_) => false,
            Ok((t, v)) => {
                &&& st.grows_to(t)
                &&& t.vars == st.vars
                &&& st.leads_to(t, sorts)
                &&& t.binds(sorts)
                &&& fronted(st, e).grows_to(t)
                &&& t.fits() ==> v.0 < t.code.len() && t.val_ty(v) == Some(ClTy::I64)
            },
        },
        e.ty.machine() == Some(flow::sort_of(e).machine()),
{
    built_shape(st, env, e);
    fronted_laid_out(st, e);
    let s = fronted(st, e);
    let ptr = asked(st, e).1;
    meaning::binds_on(st, s, sorts);
    fill_lowered(s, env, flow::members(e), 0, ptr, flow::head(e), sorts);
    let t = st.expr(env, e)->Ok_0.0;
    release_layout::adds_on(st, s, t);
    meaning::binds_on(st, t, sorts);
    meaning::grows_on(asked(st, e).0, s, t);
    if t.fits() {
        assert(t.code[ptr.0 as int] == asked(st, e).0.code[ptr.0 as int]);
    }
}

/// The members are computed and written.
proof fn fill_runs(
    p: Prog,
    st: St,
    env: EnvView,
    ms: Seq<TypedExpr>,
    i: nat,
    ptr: Val,
    base: i32,
    sorts: Map<Seq<char>, Sort>,
    names: World,
    m: Mach,
) -> (e: Mach)
    requires
        st.binds(sorts),
        forall|i: int| 0 <= i < ms.len() ==> meaning::integer_expr(#[trigger] ms[i], sorts),
        p.contains(st.fill(env, ms, i, ptr, base)->Ok_0),
        m.pc == st.code.len(),
        meaning::agrees(st.vars, sorts, names, m.store),
        m.has(ptr),
        ptr.0 < st.code.len(),
        flow::filled(names, ms, i, m.val(ptr), base) is Some,
    ensures
        p.reaches(m, Event::Go(e)),
        e.pc == st.fill(env, ms, i, ptr, base)->Ok_0.code.len(),
        m.keeps(e, st.code.len()),
        e.store.vars == m.store.vars,
        meaning::agrees(
            st.vars,
            sorts,
            flow::filled(names, ms, i, m.val(ptr), base)->0,
            e.store,
        ),
    decreases ms.len() - i,
{
    machine::reach_step(p, m);
    if i < ms.len() {
        let f = ms[i as int];
        fill_lowered(st, env, ms, i, ptr, base, sorts);
        meaning::integers_are_lowered(st, env, f, sorts);
        let (s1, v) = st.expr(env, f)->Ok_0;
        let offset = state::slot_offset(base, i);
        let s2 = s1.store(v, ptr, offset);
        let store = Inst::Store { val: v, base: ptr, offset };
        let t = st.fill(env, ms, i, ptr, base)->Ok_0;
        assert(s1.grows_to(s2));
        meaning::grows_on(st, s1, s2);
        meaning::binds_on(st, s2, sorts);
        fill_lowered(s2, env, ms, i + 1, ptr, base, sorts);
        meaning::contains_on(p, s2, t);
        meaning::contains_on(p, s1, s2);
        let x = meaning::meaning(f, names)->0;
        let h = m.val(ptr);
        assert(flow::sort_of(f) is Integer);
        let m1 = running::value_run(p, st, env, f, sorts, names, m);
        running::step_on(p, m, m1, s2, store);
        assert(m1.vals.contains_key(ptr.0 as nat));
        assert(m1.vals[ptr.0 as nat] == h);
        assert(p.insts[v.0 as int] == s1.code[v.0 as int]);
        assert(f.ty.machine() == Some(f.ty.whole()));
        let after = names.writing(h + offset, f.ty.whole(), x);
        let m2 = Mach {
            pc: m1.pc + 1,
            store: Store { heap: after.heap, ..m1.store },
            ..m1
        };
        assert(p.step(m1) == Event::Go(m2));
        assert(meaning::agrees(st.vars, sorts, after, m2.store));
        let e = fill_runs(p, s2, env, ms, i + 1, ptr, base, sorts, after, m2);
        machine::reach_on(p, m, m2, Event::Go(e));
        meaning::keeps_on(m, m2, e, st.code.len(), s2.code.len());
        e
    } else {
        m
    }
}

/// The box is asked for, and its first bytes are written.
proof fn front_runs(
    p: Prog,
    st: St,
    e: TypedExpr,
    sorts: Map<Seq<char>, Sort>,
    names: World,
    m: Mach,
) -> (end: Mach)
    requires
        st.binds(sorts),
        flow::builds(e),
        p.contains(fronted(st, e)),
        m.pc == st.code.len(),
        meaning::agrees(st.vars, sorts, names, m.store),
    ensures
        p.reaches(m, Event::Go(end)),
        end.pc == fronted(st, e).code.len(),
        m.keeps(end, st.code.len()),
        end.store.vars == m.store.vars,
        end.has(asked(st, e).1),
        end.val(asked(st, e).1) == flow::provided(e, names).1,
        meaning::agrees(st.vars, sorts, flow::provided(e, names).0, end.store),
{
    let t = fronted(st, e);
    let sym = flow::allocator(e);
    let ty = if flow::is_row(e) {
        ClTy::Ptr
    } else {
        ClTy::I64
    };
    let (s1, n) = st.val(Inst::Iconst { ty, imm: flow::size(e) });
    let (s3, ptr) = asked(st, e);
    fronted_laid_out(st, e);
    meaning::contains_on(p, s3, t);
    machine::reach_step(p, m);
    running::step_on(p, m, m, s3, Inst::Iconst { ty, imm: flow::size(e) });
    let z = flow::size(e) as int;
    word_stays(ty, flow::size(e));
    let m1 = Mach { pc: m.pc + 1, vals: m.vals.insert(m.pc, z), ..m };
    assert(p.step(m) == Event::Go(m1));
    running::step_on(p, m, m1, s3, Inst::Arg { val: n });
    assert(m1.has(n) && m1.val(n) == z);
    let m2 = Mach {
        pc: m1.pc + 1,
        store: Store { passed: m1.store.passed.push(z), ..m1.store },
        ..m1
    };
    assert(p.step(m1) == Event::Go(m2));
    let call = Inst::Call { callee: Callee::Runtime(sym), argc: 1 };
    running::step_on(p, m, m2, s3, call);
    let store = m2.store.called(sym);
    assert(m2.store.passed =~= seq![z]);
    let asked_for = names.calling(seq![releases::act(sym, z)]);
    machine::calling_one(names.heap, releases::act(sym, z));
    let h = (names.heap.answers)(asked_for.heap.calls);
    let m3 = Mach { pc: m2.pc + 1, vals: m2.vals.insert(m2.pc, h), store };
    assert(p.step(m2) == Event::Go(m3));
    assert(m3.has(ptr) && m3.val(ptr) == h);
    assert(meaning::agrees(st.vars, sorts, asked_for, m3.store));
    if flow::front(e) is Some {
        let i = front_const(e);
        let (s4, c) = s3.val(i);
        running::step_on(p, m, m3, t, i);
        let cell = flow::front(e)->0;
        let m4 = Mach { pc: m3.pc + 1, vals: m3.vals.insert(m3.pc, cell.1), ..m3 };
        assert(p.step(m3) == Event::Go(m4));
        running::step_on(p, m, m4, t, Inst::Store { val: c, base: ptr, offset: 8 });
        assert(m4.has(c) && m4.val(c) == cell.1);
        assert(m4.has(ptr) && m4.val(ptr) == h);
        assert(p.insts[c.0 as int] == t.code[c.0 as int]);
        let after = asked_for.writing(h + 8, cell.0, cell.1);
        let m5 = Mach {
            pc: m4.pc + 1,
            store: Store { heap: after.heap, ..m4.store },
            ..m4
        };
        assert(p.step(m4) == Event::Go(m5));
        assert(meaning::agrees(st.vars, sorts, after, m5.store));
        m5
    } else {
        m3
    }
}

proof fn word_stays(ty: ClTy, x: i64)
    requires
        ty is I64 || ty is Ptr,
    ensures
        machine::wrap(ty, x as int) == x,
{
    let m: int = 0x1_0000_0000_0000_0000;
    if x < 0 {
        vstd::arithmetic::div_mod::lemma_small_mod((x + m) as nat, m as nat);
        vstd::arithmetic::div_mod::lemma_mod_add_multiples_vanish(x as int, m);
    } else {
        vstd::arithmetic::div_mod::lemma_small_mod(x as nat, m as nat);
    }
}

/// The code that binds a name to a new box does what the statement does.
pub proof fn let_built_runs(
    p: Prog,
    st: St,
    env: EnvView,
    exits: LoopExits,
    s: TypedStmt,
    sorts: Map<Seq<char>, Sort>,
    looped: bool,
    names: World,
    fuel: nat,
    m: Mach,
)
    requires
        p.stmt_at(st, env, exits, s, sorts, looped, names, fuel, m),
        s is Let,
        flow::builds(s->Let_expr),
    ensures
        p.runs_stmt(st, env, exits, s, sorts, names, fuel, m),
{
    let name = s->Let_name@;
    let expr = s->Let_expr;
    assert(flow::built_expr(expr, sorts));
    built_lowered(st, env, expr, sorts);
    built_shape(st, env, expr);
    let (s1, v) = st.expr(env, expr)->Ok_0;
    let (s2, var) = s1.declare(ClTy::I64);
    let s3 = s2.def_var(var, v);
    let t = s3.bind(name, var);
    assert(st.stmt(env, exits, s)->Ok_0 == (t, false));
    assert(s1.grows_to(t));
    meaning::contains_on(p, s1, t);
    let f = fronted(st, expr);
    fronted_laid_out(st, expr);
    meaning::contains_on(p, f, s1);
    let (start, h) = flow::provided(expr, names);
    let m1 = front_runs(p, st, expr, sorts, names, m);
    meaning::binds_on(st, f, sorts);
    let m2 = fill_runs(
        p,
        f,
        env,
        flow::members(expr),
        0,
        v,
        flow::head(expr),
        sorts,
        start,
        m1,
    );
    machine::reach_on(p, m, m1, Event::Go(m2));
    let (after, x) = flow::built(expr, names)->0;
    assert(m2.vals.contains_key(v.0 as nat));
    assert(m2.vals[v.0 as nat] == x);
    running::step_on(p, m, m2, t, Inst::DeclareVar { ty: ClTy::I64 });
    let m3 = Mach { pc: m2.pc + 1, ..m2 };
    assert(p.step(m2) == Event::Go(m3));
    running::step_on(p, m, m3, t, Inst::DefVar { var, val: v });
    let m4 = Mach { pc: m3.pc + 1, store: m2.store.insert(var, x), ..m3 };
    assert(p.step(m3) == Event::Go(m4));
    running::agrees_new(
        s1,
        name,
        var,
        sorts,
        flow::sort_of(expr),
        after,
        m2.store,
        x,
        x,
    );
    reveal(Prog::follows);
    assert(p.arrives(m, t.code.len(), t.vars, flow::after(s, sorts), after.insert(name, x)));
}

} // verus!
