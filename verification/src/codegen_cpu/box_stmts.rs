//! That the code of statements which give up values, or write to boxes, does
//! what the statements do.

use crate::codegen_cpu::flow;
use crate::codegen_cpu::inst::{ClTy, Inst, Val, Var};
use crate::codegen_cpu::layout;
use crate::codegen_cpu::machine;
use crate::codegen_cpu::machine::{Event, Mach, Prog};
use crate::codegen_cpu::meaning;
use crate::codegen_cpu::meaning::{Sort, World};
use crate::codegen_cpu::release_layout;
use crate::codegen_cpu::release_runs;
use crate::codegen_cpu::releases;
use crate::codegen_cpu::running;
use crate::codegen_cpu::scheme_stmt::LoopExits;
use crate::codegen_cpu::state::{EnvView, Fail, St};
use crate::codegen_cpu::symbols::RtSym;
use crate::typed::{ResolvedTy, TypedStmt};
use vstd::prelude::*;

verus! {

/// The code behind the read of a handle.
pub open spec fn handle_code(s: TypedStmt, st: St, v: Val) -> St {
    match s {
        TypedStmt::DropStruct { droppable_fields, .. } => st.drop_listed(
            v,
            8,
            droppable_fields@,
            0,
        ).act(RtSym::AggregateRelease, v),
        TypedStmt::DropTuple { droppable_fields, .. } => st.drop_listed(
            v,
            8,
            droppable_fields@,
            0,
        ).act(RtSym::AggregateRelease, v),
        TypedStmt::DropEnum { variants, .. } => st.drop_enum_listed(v, variants@),
        TypedStmt::DropArray { elem_ty, len, .. } => release_runs::array_dropped(
            st,
            v,
            elem_ty,
            len,
        ),
        TypedStmt::DropList { elem_ty, .. } => st.drop_list(v, elem_ty),
        _ => st.act(flow::handle_sym(s)->0, v),
    }
}

proof fn box_laid_out(st: St, v: Val, slots: Seq<(usize, ResolvedTy)>)
    requires
        st.tys.len() == st.code.len(),
    ensures
        st.adds(st.drop_listed(v, 8, slots, 0)),
        st.adds(st.drop_listed(v, 8, slots, 0).act(RtSym::AggregateRelease, v)),
        st.drop_listed(v, 8, slots, 0).grows_to(
            st.drop_listed(v, 8, slots, 0).act(RtSym::AggregateRelease, v),
        ),
{
    release_layout::listed_laid_out(st, v, 8, slots, 0);
    let a = st.drop_listed(v, 8, slots, 0);
    release_layout::adds_act(a, RtSym::AggregateRelease, v);
    release_layout::adds_on(st, a, a.act(RtSym::AggregateRelease, v));
}

proof fn handle_laid_out(s: TypedStmt, st: St, v: Val)
    requires
        st.tys.len() == st.code.len(),
    ensures
        st.adds(handle_code(s, st, v)),
{
    match s {
        TypedStmt::DropStruct { droppable_fields, .. } => {
            box_laid_out(st, v, droppable_fields@);
        },
        TypedStmt::DropTuple { droppable_fields, .. } => {
            box_laid_out(st, v, droppable_fields@);
        },
        TypedStmt::DropEnum { variants, .. } => {
            release_layout::enum_listed_laid_out(st, v, variants@);
        },
        TypedStmt::DropArray { elem_ty, len, .. } => {
            let a = if elem_ty.owns() {
                st.counted_drop(v, elem_ty, len)
            } else {
                st
            };
            if elem_ty.owns() {
                release_layout::counted_laid_out(st, v, elem_ty, len);
            }
            release_layout::adds_act(a, RtSym::HeapFree, v);
            release_layout::adds_on(st, a, a.act(RtSym::HeapFree, v));
        },
        TypedStmt::DropList { elem_ty, .. } => {
            release_layout::list_laid_out(st, v, elem_ty);
        },
        _ => {
            release_layout::adds_act(st, flow::handle_sym(s)->0, v);
        },
    }
}

/// Such a statement reads the handle, and the rest follows.
proof fn handle_shape(st: St, env: EnvView, exits: LoopExits, s: TypedStmt, n: Seq<char>)
    requires
        flow::handle_name(s) == Some(n),
        st.vars.contains_key(n),
        st.tys.len() == st.code.len(),
    ensures
        ({
            let (s1, v) = st.val(Inst::UseVar { var: st.vars[n] });
            let t = handle_code(s, s1, v);
            &&& st.stmt(env, exits, s) == Ok::<(St, bool), Fail>((t, false))
            &&& st.grows_to(s1)
            &&& s1.adds(t)
            &&& st.adds(t)
        }),
{
    let i = Inst::UseVar { var: st.vars[n] };
    let (s1, v) = st.val(i);
    release_layout::adds_emit(st, i);
    handle_laid_out(s, s1, v);
    release_layout::adds_on(st, s1, handle_code(s, s1, v));
}

/// The code of a statement that gives up a value can be generated.
pub proof fn handle_lowered(
    st: St,
    env: EnvView,
    exits: LoopExits,
    s: TypedStmt,
    sorts: Map<Seq<char>, Sort>,
    looped: bool,
)
    requires
        layout::ready(st, sorts),
        flow::core_stmt(s, sorts, looped),
        flow::handle_name(s) is Some,
    ensures
        st.stmt(env, exits, s) is Ok,
        layout::extended(st, st.stmt(env, exits, s)->Ok_0.0, sorts, sorts),
{
    reveal(layout::ready);
    reveal(layout::extended);
    let n = flow::handle_name(s)->0;
    handle_shape(st, env, exits, s, n);
    let t = st.stmt(env, exits, s)->Ok_0.0;
    meaning::binds_on(st, t, sorts);
}

/// Names keep their values over a run that keeps the variables before it.
pub proof fn agrees_behind(
    st: St,
    sorts: Map<Seq<char>, Sort>,
    names: World,
    after: World,
    m: Mach,
    e: Mach,
)
    requires
        st.binds(sorts),
        st.fits(),
        meaning::agrees(st.vars, sorts, names, m.store),
        after.names == names.names,
        forall|v: Var|
            #![trigger e.store.vars.contains_key(v)]
            #![trigger e.store.vars[v]]
            v.0 < st.code.len() && m.store.vars.contains_key(v) ==> e.store.vars.contains_key(v)
                && e.store.vars[v] == m.store.vars[v],
        e.store.heap == after.heap,
        e.store.passed.len() == 0,
    ensures
        meaning::agrees(st.vars, sorts, after, e.store),
{
    assert forall|n: Seq<char>| #![trigger sorts.contains_key(n)] sorts.contains_key(n) implies {
        &&& after.contains_key(n)
        &&& e.store.contains_key(st.vars[n])
        &&& meaning::stands_for(sorts[n], e.store[st.vars[n]], after[n])
    } by {
        assert(st.val_ty(Val(st.vars[n].0)) == Some(sorts[n].machine()));
        assert(m.store.vars.contains_key(st.vars[n]));
        assert(e.store.vars.contains_key(st.vars[n]));
    }
}

/// A struct or a tuple is given up.
proof fn box_runs(p: Prog, st: St, v: Val, slots: Seq<(usize, ResolvedTy)>, m: Mach) -> (e: Mach)
    requires
        p.single(),
        st.tys.len() == st.code.len(),
        p.contains(st.drop_listed(v, 8, slots, 0).act(RtSym::AggregateRelease, v)),
        m.pc == st.code.len(),
        m.store.passed.len() == 0,
        m.has(v),
        v.0 < st.code.len(),
        releases::listed_held(m.store.heap.cells, m.val(v), 8, slots, 0),
    ensures
        p.reaches(m, Event::Go(e)),
        e.pc == st.drop_listed(v, 8, slots, 0).act(RtSym::AggregateRelease, v).code.len(),
        m.carries(e, st.code.len(), releases::box_given_up(m.store.heap.cells, m.val(v), slots)),
{
    box_laid_out(st, v, slots);
    let a = st.drop_listed(v, 8, slots, 0);
    let t = a.act(RtSym::AggregateRelease, v);
    meaning::contains_on(p, a, t);
    let m1 = release_runs::listed_run(p, m.store.heap.cells, st, v, 8, slots, 0, m);
    let e = release_runs::act_runs(p, m, m1, a, RtSym::AggregateRelease, v);
    let x = releases::listed_given_up(m.store.heap.cells, m.val(v), 8, slots, 0);
    let last = seq![releases::act(RtSym::AggregateRelease, m.val(v))];
    release_runs::carries_on(m, m1, e, st.code.len(), a.code.len(), x, last);
    assert(x + last =~= releases::box_given_up(m.store.heap.cells, m.val(v), slots));
    e
}

/// Behind the read of a handle the calls are made.
proof fn handle_acted(p: Prog, s: TypedStmt, st: St, v: Val, m: Mach) -> (e: Mach)
    requires
        flow::handle_name(s) is Some,
        p.single(),
        st.tys.len() == st.code.len(),
        p.contains(handle_code(s, st, v)),
        m.pc == st.code.len(),
        m.store.passed.len() == 0,
        m.has(v),
        st.val_ty(v) == Some(ClTy::I64),
        flow::handle_held(s, m.store.heap.cells, m.val(v)),
    ensures
        p.reaches(m, Event::Go(e)),
        e.pc == handle_code(s, st, v).code.len(),
        m.carries(e, st.code.len(), flow::handle_acts(s, m.store.heap.cells, m.val(v))),
{
    machine::reach_step(p, m);
    match s {
        TypedStmt::DropStruct { droppable_fields, .. } => box_runs(
            p,
            st,
            v,
            droppable_fields@,
            m,
        ),
        TypedStmt::DropTuple { droppable_fields, .. } => box_runs(
            p,
            st,
            v,
            droppable_fields@,
            m,
        ),
        TypedStmt::DropEnum { variants, .. } => release_runs::enum_listed_runs(p, m.store.heap.cells,
            st,
            v,
            variants@,
            m,
        ),
        TypedStmt::DropArray { elem_ty, len, .. } => release_runs::array_runs(p, m.store.heap.cells,
            st,
            v,
            elem_ty,
            len,
            m,
        ),
        TypedStmt::DropList { elem_ty, .. } => release_runs::list_runs(p, st, v, elem_ty, m),
        _ => release_runs::act_runs(p, m, m, st, flow::handle_sym(s)->0, v),
    }
}

/// A name is read.
pub proof fn word_read(
    p: Prog,
    st: St,
    t: St,
    sorts: Map<Seq<char>, Sort>,
    names: World,
    n: Seq<char>,
    m: Mach,
) -> (e: Mach)
    requires
        st.binds(sorts),
        p.contains(t),
        st.emit(Inst::UseVar { var: st.vars[n] }).grows_to(t),
        m.pc == st.code.len(),
        meaning::agrees(st.vars, sorts, names, m.store),
        flow::is_word(sorts, n),
    ensures
        ({
            let (s1, v) = st.val(Inst::UseVar { var: st.vars[n] });
            &&& p.reaches(m, Event::Go(e))
            &&& p.contains(s1)
            &&& s1.binds(sorts)
            &&& s1.vars == st.vars
            &&& s1.val_ty(v) == Some(ClTy::I64)
            &&& e.pc == s1.code.len()
            &&& e.store == m.store
            &&& m.keeps(e, st.code.len())
            &&& e.has(v)
            &&& e.val(v) == names[n]
        }),
{
    let i = Inst::UseVar { var: st.vars[n] };
    let (s1, v) = st.val(i);
    assert(st.grows_to(s1));
    meaning::binds_on(st, s1, sorts);
    meaning::contains_on(p, s1, t);
    machine::reach_step(p, m);
    running::step_on(p, m, m, s1, i);
    assert(sorts.contains_key(n));
    let x = m.store[st.vars[n]];
    let e = Mach { pc: m.pc + 1, vals: m.vals.insert(m.pc, x), ..m };
    assert(p.step(m) == Event::Go(e));
    e
}

/// The code of a statement that gives up a value makes the calls of the
/// statement.
pub proof fn handle_runs(
    p: Prog,
    st: St,
    env: EnvView,
    exits: LoopExits,
    s: TypedStmt,
    sorts: Map<Seq<char>, Sort>,
    looped: bool,
    names: World,
    fuel: nat,
    m: Mach,
)
    requires
        p.stmt_at(st, env, exits, s, sorts, looped, names, fuel, m),
        flow::handle_name(s) is Some,
    ensures
        p.runs_stmt(st, env, exits, s, sorts, names, fuel, m),
{
    let n = flow::handle_name(s)->0;
    handle_shape(st, env, exits, s, n);
    let (s1, v) = st.val(Inst::UseVar { var: st.vars[n] });
    let t = handle_code(s, s1, v);
    let m1 = word_read(p, st, t, sorts, names, n, m);
    let e = handle_acted(p, s, s1, v, m1);
    machine::reach_on(p, m, m1, Event::Go(e));
    let acts = flow::handle_acts(s, names.heap.cells, names[n]);
    release_runs::carries_then(m, m1, e, st.code.len(), s1.code.len(), acts);
    let after = names.calling(acts);
    agrees_behind(st, sorts, names, after, m, e);
    reveal(Prog::follows);
    assert(p.arrives(m, t.code.len(), t.vars, sorts, after));
}

} // verus!
