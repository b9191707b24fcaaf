//! That the code of a match does what the match does.

use crate::codegen_cpu::flow;
use crate::codegen_cpu::flow::Flow;
use crate::codegen_cpu::inst::{Blk, ClTy, Inst, Val, Var};
use crate::codegen_cpu::layout;
use crate::codegen_cpu::machine;
use crate::codegen_cpu::machine::{Event, Mach, Prog};
use crate::codegen_cpu::meaning;
use crate::codegen_cpu::meaning::{Sort, World};
use crate::codegen_cpu::release_layout;
use crate::codegen_cpu::release_runs;
use crate::codegen_cpu::running;
use crate::codegen_cpu::scheme_stmt::LoopExits;
use crate::codegen_cpu::state;
use crate::codegen_cpu::state::{EnvView, Fail, St};
use crate::typed::{ResolvedTy, TypedMatchArm, TypedStmt};
use vstd::prelude::*;

verus! {

/// The state behind the member at position `j`.
pub open spec fn with_member(st: St, ptr: Val, bs: Seq<(String, ResolvedTy)>, j: nat) -> St {
    let ty = bs[j as int].1.whole();
    let (s1, v) = st.load(ty, ptr, state::slot_offset(16, j));
    s1.bind_new(bs[j as int].0@, ty, v)
}

/// A member is read and gets a variable of its own.
proof fn member_lowered(
    st: St,
    ptr: Val,
    bs: Seq<(String, ResolvedTy)>,
    j: nat,
    sorts: Map<Seq<char>, Sort>,
)
    requires
        flow::core_bindings(bs, sorts),
        j < bs.len(),
        st.binds(flow::bound_sorts(bs, sorts, j)),
    ensures
        st.bind_payload(ptr, bs, j) == with_member(st, ptr, bs, j).bind_payload(ptr, bs, j + 1),
        st.grows_to(with_member(st, ptr, bs, j)),
        with_member(st, ptr, bs, j).fits() ==> st.owns_blocks(with_member(st, ptr, bs, j)),
        with_member(st, ptr, bs, j).binds(flow::bound_sorts(bs, sorts, j + 1)),
        layout::same_vars(
            st.vars,
            with_member(st, ptr, bs, j).vars,
            flow::bound_sorts(bs, sorts, j),
        ),
        layout::same_sorts(
            flow::bound_sorts(bs, sorts, j),
            flow::bound_sorts(bs, sorts, j + 1),
        ),
{
    let ty = bs[j as int].1.whole();
    let name = bs[j as int].0@;
    let (s1, v) = st.load(ty, ptr, state::slot_offset(16, j));
    let (s2, var) = s1.declare(ty);
    let t = with_member(st, ptr, bs, j);
    assert(t == s2.def_var(var, v).bind(name, var));
    assert(st.grows_to(t));
    assert(bs[j as int].1.machine() == Some(ty));
    layout::binds_new(
        st,
        name,
        var,
        t,
        flow::bound_sorts(bs, sorts, j),
        Sort::Integer(ty),
    );
}

/// The members of a variant are read, each into a variable of its own.
proof fn payload_lowered(
    st: St,
    ptr: Val,
    bs: Seq<(String, ResolvedTy)>,
    j: nat,
    sorts: Map<Seq<char>, Sort>,
)
    requires
        flow::core_bindings(bs, sorts),
        j <= bs.len(),
        st.binds(flow::bound_sorts(bs, sorts, j)),
    ensures
        ({
            let t = st.bind_payload(ptr, bs, j);
            &&& st.grows_to(t)
            &&& t.fits() ==> st.owns_blocks(t)
            &&& t.binds(flow::bound_sorts(bs, sorts, bs.len()))
            &&& layout::same_vars(st.vars, t.vars, flow::bound_sorts(bs, sorts, j))
            &&& layout::same_sorts(
                flow::bound_sorts(bs, sorts, j),
                flow::bound_sorts(bs, sorts, bs.len()),
            )
        }),
    decreases bs.len() - j,
{
    if j < bs.len() {
        member_lowered(st, ptr, bs, j, sorts);
        let a = with_member(st, ptr, bs, j);
        payload_lowered(a, ptr, bs, j + 1, sorts);
        let t = st.bind_payload(ptr, bs, j);
        let x = flow::bound_sorts(bs, sorts, j);
        let y = flow::bound_sorts(bs, sorts, j + 1);
        assert(st.leads_to(a, x));
        assert(a.leads_to(t, y));
        layout::leads_on(st, a, t, x, y);
    }
}

/// The arms from position `i` on are the arm there and those behind it.
proof fn arms_unfold(
    st: St,
    env: EnvView,
    exits: LoopExits,
    ptr: Val,
    tag: Val,
    merge: Blk,
    first: nat,
    arms: Seq<TypedMatchArm>,
    i: nat,
    all_left: bool,
)
    requires
        i < arms.len(),
        st.open_arm(tag, arms[i as int].variant_index, first, i).bind_payload(
            ptr,
            arms[i as int].bindings@,
            0,
        ).body(env, exits, arms[i as int].body@, 0) is Ok,
    ensures
        ({
            let arm = arms[i as int];
            let a = st.open_arm(tag, arm.variant_index, first, i).bind_payload(
                ptr,
                arm.bindings@,
                0,
            );
            let (sb, left) = a.body(env, exits, arm.body@, 0)->Ok_0;
            let c = layout::closed_body(sb, left, merge);
            st.arms(env, exits, ptr, tag, merge, first, arms, i, all_left) == c.arms(
                env,
                exits,
                ptr,
                tag,
                merge,
                first,
                arms,
                i + 1,
                all_left && left,
            )
        }),
{
    let arm = arms[i as int];
    let a = st.open_arm(tag, arm.variant_index, first, i).bind_payload(ptr, arm.bindings@, 0);
    let (sb, left) = a.body(env, exits, arm.body@, 0)->Ok_0;
    let c = layout::closed_body(sb, left, merge);
    assert(a.body_into(env, exits, arm.body@, merge) == Ok::<(St, bool), Fail>((c, left)));
}

/// The code of the arms of a match can be generated.
proof fn arms_lowered(
    from: St,
    st: St,
    env: EnvView,
    exits: LoopExits,
    ptr: Val,
    tag: Val,
    merge: Blk,
    first: nat,
    arms: Seq<TypedMatchArm>,
    i: nat,
    all_left: bool,
    sorts: Map<Seq<char>, Sort>,
    looped: bool,
)
    requires
        i <= arms.len(),
        st.binds(sorts),
        layout::same_vars(from.vars, st.vars, sorts),
        flow::core_arms(arms, i, sorts, looped),
        looped ==> exits is Some,
        st.awaits(
            from,
            seq![merge] + release_layout::row(first + i, (arms.len() - i + 1) as nat),
        ),
    ensures
        st.arms(env, exits, ptr, tag, merge, first, arms, i, all_left) is Ok,
        ({
            let (t, left) = st.arms(env, exits, ptr, tag, merge, first, arms, i, all_left)->Ok_0;
            &&& t.awaits(from, seq![merge] + release_layout::row(first + arms.len(), 1))
            &&& st.grows_to(t)
            &&& t.binds(sorts)
            &&& layout::same_vars(from.vars, t.vars, sorts)
            &&& left ==> all_left
        }),
    decreases arms, arms.len() - i, 1nat,
{
    let n = arms.len();
    if i < n {
        arm_lowered(from, st, env, exits, ptr, tag, merge, first, arms, i, sorts, looped);
        arms_unfold(st, env, exits, ptr, tag, merge, first, arms, i, all_left);
        let arm = arms[i as int];
        let a = st.open_arm(tag, arm.variant_index, first, i).bind_payload(
            ptr,
            arm.bindings@,
            0,
        );
        let (sb, left) = a.body(env, exits, arm.body@, 0)->Ok_0;
        let c = layout::closed_body(sb, left, merge);
        arms_lowered(
            from,
            c,
            env,
            exits,
            ptr,
            tag,
            merge,
            first,
            arms,
            i + 1,
            all_left && left,
            sorts,
            looped,
        );
        let r = st.arms(env, exits, ptr, tag, merge, first, arms, i, all_left);
        meaning::grows_on(st, c, r->Ok_0.0);
    }
}

/// The code of one arm of a match can be generated.
proof fn arm_lowered(
    from: St,
    st: St,
    env: EnvView,
    exits: LoopExits,
    ptr: Val,
    tag: Val,
    merge: Blk,
    first: nat,
    arms: Seq<TypedMatchArm>,
    i: nat,
    sorts: Map<Seq<char>, Sort>,
    looped: bool,
)
    requires
        i < arms.len(),
        st.binds(sorts),
        layout::same_vars(from.vars, st.vars, sorts),
        flow::core_arms(arms, i, sorts, looped),
        looped ==> exits is Some,
        st.awaits(
            from,
            seq![merge] + release_layout::row(first + i, (arms.len() - i + 1) as nat),
        ),
    ensures
        ({
            let arm = arms[i as int];
            let bs = arm.bindings@;
            let more = flow::bound_sorts(bs, sorts, bs.len());
            let o = st.open_arm(tag, arm.variant_index, first, i);
            let a = o.bind_payload(ptr, bs, 0);
            let (sb, left) = a.body(env, exits, arm.body@, 0)->Ok_0;
            let c = layout::closed_body(sb, left, merge);
            &&& flow::core_bindings(bs, sorts)
            &&& flow::core_body(arm.body@, 0, more, looped)
            &&& flow::core_arms(arms, i + 1, sorts, looped)
            &&& o.binds(sorts)
            &&& o.vars == st.vars
            &&& st.grows_to(o)
            &&& o.grows_to(a)
            &&& a.binds(more)
            &&& layout::same_vars(st.vars, a.vars, sorts)
            &&& layout::same_sorts(sorts, more)
            &&& a.body(env, exits, arm.body@, 0) is Ok
            &&& a.grows_to(sb)
            &&& sb.grows_to(c)
            &&& st.grows_to(c)
            &&& c.binds(sorts)
            &&& layout::same_vars(from.vars, c.vars, sorts)
            &&& c.awaits(
                from,
                seq![merge] + release_layout::row(
                    first + (i + 1),
                    (arms.len() - (i + 1) + 1) as nat,
                ),
            )
        }),
    decreases arms, arms.len() - i, 0nat,
{
    let n = arms.len();
    let arm = arms[i as int];
    let bs = arm.bindings@;
    let more = flow::bound_sorts(bs, sorts, bs.len());
    release_layout::open_arm_awaits(from, st, tag, arm.variant_index, merge, first, n, i);
    let o = st.open_arm(tag, arm.variant_index, first, i);
    let rest = seq![merge] + release_layout::row(first + i + 1, (n - i) as nat);
    meaning::binds_on(st, o, sorts);
    payload_lowered(o, ptr, bs, 0, sorts);
    let a = o.bind_payload(ptr, bs, 0);
    layout::awaits_code(from, o, a, rest);
    layout::binds_ready(a, more);
    layout::body_lowered(a, env, exits, arm.body@, 0, more, looped);
    let (sb, left) = a.body(env, exits, arm.body@, 0)->Ok_0;
    layout::extended_facts(a, sb, more, more);
    layout::awaits_code(from, a, sb, rest);
    let c = layout::closed_body(sb, left, merge);
    if !left {
        layout::awaits_emit(from, sb, rest, Inst::Jump { target: merge });
    }
    assert(sb.grows_to(c));
    meaning::grows_on(st, o, a);
    meaning::grows_on(st, a, sb);
    meaning::grows_on(st, sb, c);
    assert forall|x: Seq<char>| #[trigger] sorts.contains_key(x) implies from.vars.contains_key(x)
        && c.vars.contains_key(x) && from.vars[x] == c.vars[x] by {
        assert(more.contains_key(x));
        assert(st.vars[x] == a.vars[x]);
        assert(a.vars[x] == sb.vars[x]);
    }
    assert forall|x: Seq<char>| #[trigger]
        sorts.contains_key(x) implies c.vars.contains_key(x) && c.vars[x] == st.vars[x] by {
        assert(from.vars[x] == st.vars[x]);
    }
    meaning::binds_on(st, c, sorts);
}

/// How a match is laid out: the box, its tag, the arms, and, unless all of
/// them leave by themselves, what follows.
proof fn match_shape(
    st: St,
    env: EnvView,
    exits: LoopExits,
    s: TypedStmt,
    sorts: Map<Seq<char>, Sort>,
    looped: bool,
)
    requires
        st.binds(sorts),
        flow::core_stmt(s, sorts, looped),
        looped ==> exits is Some,
        s is Match,
    ensures
        ({
            let arms = s->arms@;
            let n = arms.len();
            let (s1, ptr) = st.expr(env, s->scrutinee)->Ok_0;
            let (a, tag) = s1.load(ClTy::I32, ptr, 8);
            let (b, merge) = a.blk();
            let first = b.code.len();
            let (c, unreachable) = b.blocks(n).blk();
            let d = if n > 0 {
                c.jump(Blk(first as usize))
            } else {
                c
            };
            let (f, left) = d.arms(env, exits, ptr, tag, merge, first, arms, 0, true)->Ok_0;
            let g = f.close_arms(unreachable);
            let t = if left {
                g
            } else {
                g.enter(merge)
            };
            &&& meaning::integer_expr(s->scrutinee, sorts)
            &&& flow::core_arms(arms, 0, sorts, looped)
            &&& st.expr(env, s->scrutinee) is Ok
            &&& d.arms(env, exits, ptr, tag, merge, first, arms, 0, true) is Ok
            &&& st.stmt(env, exits, s) == Ok::<(St, bool), Fail>((t, left))
            &&& st.leads_to(t, sorts)
            &&& st.grows_to(s1)
            &&& s1.vars == st.vars
            &&& s1.fits() ==> ptr.0 < s1.code.len()
            &&& c.code.len() == first + n + 1
            &&& s1.grows_to(c)
            &&& c.grows_to(d)
            &&& d.binds(sorts)
            &&& d.vars == st.vars
            &&& d.awaits(s1, seq![merge] + release_layout::row(first, n + 1))
            &&& d.grows_to(f)
            &&& f.grows_to(t)
            &&& g.grows_to(t)
            &&& !left ==> g.switch_to(merge).grows_to(t)
        }),
    decreases s, 0nat, 0nat,
{
    let arms = s->arms@;
    let n = arms.len();
    meaning::integers_are_lowered(st, env, s->scrutinee, sorts);
    let (s1, ptr) = st.expr(env, s->scrutinee)->Ok_0;
    meaning::binds_on(st, s1, sorts);
    release_layout::switch_opens(s1, ptr, n);
    let (a, tag) = s1.load(ClTy::I32, ptr, 8);
    let (b, merge) = a.blk();
    let first = b.code.len();
    let (c, unreachable) = b.blocks(n).blk();
    let d = if n > 0 {
        c.jump(Blk(first as usize))
    } else {
        c
    };
    meaning::grows_on(s1, c, d);
    meaning::binds_on(s1, d, sorts);
    assert(layout::same_vars(s1.vars, d.vars, sorts));
    arms_lowered(s1, d, env, exits, ptr, tag, merge, first, arms, 0, true, sorts, looped);
    let (f, left) = d.arms(env, exits, ptr, tag, merge, first, arms, 0, true)->Ok_0;
    let b0 = seq![merge, unreachable];
    assert(seq![merge] + release_layout::row(first + n, 1) =~= b0);
    layout::awaits_switch(s1, f, b0, 1);
    let b1 = seq![merge];
    assert(b0.remove(1) =~= b1);
    let g1 = f.switch_to(unreachable);
    layout::awaits_emit(s1, g1, b1, Inst::Seal { target: unreachable });
    layout::awaits_emit(s1, g1.seal(unreachable), b1, Inst::Trap);
    let g = f.close_arms(unreachable);
    assert(f.grows_to(g));
    let t = if left {
        g
    } else {
        g.enter(merge)
    };
    if !left {
        layout::awaits_switch(s1, g, b1, 0);
        let none = Seq::<Blk>::empty();
        assert(b1.remove(0) =~= none);
        layout::awaits_emit(s1, g.switch_to(merge), none, Inst::Seal { target: merge });
        assert(g.grows_to(t));
        assert(g.switch_to(merge).grows_to(t));
    }
    meaning::grows_on(f, g, t);
    assert(t.vars == f.vars);
    assert(s1.leads_to(t, sorts));
    assert(st.leads_to(s1, sorts));
    layout::leads_on(st, s1, t, sorts, sorts);
    assert(st.stmt(env, exits, s) == st.match_stmt(env, exits, s));
}

/// The code of a match can be generated.
pub proof fn match_lowered(
    st: St,
    env: EnvView,
    exits: LoopExits,
    s: TypedStmt,
    sorts: Map<Seq<char>, Sort>,
    looped: bool,
)
    requires
        layout::ready(st, sorts),
        flow::core_stmt(s, sorts, looped),
        looped ==> exits is Some,
        s is Match,
    ensures
        st.stmt(env, exits, s) is Ok,
        layout::extended(st, st.stmt(env, exits, s)->Ok_0.0, sorts, sorts),
    decreases s, 0nat, 1nat,
{
    reveal(layout::ready);
    reveal(layout::extended);
    match_shape(st, env, exits, s, sorts, looped);
    let t = st.stmt(env, exits, s)->Ok_0.0;
    meaning::binds_on(st, t, sorts);
}

/// A member of a variant is bound to its name.
proof fn member_runs(
    p: Prog,
    st: St,
    ptr: Val,
    bs: Seq<(String, ResolvedTy)>,
    j: nat,
    sorts: Map<Seq<char>, Sort>,
    w: World,
    m: Mach,
) -> (e: Mach)
    requires
        flow::core_bindings(bs, sorts),
        j < bs.len(),
        st.binds(flow::bound_sorts(bs, sorts, j)),
        p.contains(with_member(st, ptr, bs, j)),
        m.pc == st.code.len(),
        m.has(ptr),
        ptr.0 < st.code.len(),
        w.read(bs[j as int].1.whole(), m.val(ptr) + state::slot_offset(16, j)) is Some,
        meaning::agrees(st.vars, flow::bound_sorts(bs, sorts, j), w, m.store),
    ensures
        p.reaches(m, Event::Go(e)),
        e.pc == with_member(st, ptr, bs, j).code.len(),
        e.has(ptr),
        e.val(ptr) == m.val(ptr),
        meaning::agrees(
            with_member(st, ptr, bs, j).vars,
            flow::bound_sorts(bs, sorts, j + 1),
            w.insert(
                bs[j as int].0@,
                w.read(bs[j as int].1.whole(), m.val(ptr) + state::slot_offset(16, j))->0,
            ),
            e.store,
        ),
{
    let x = flow::bound_sorts(bs, sorts, j);
    let a = with_member(st, ptr, bs, j);
    let h = m.val(ptr);
    let ty = bs[j as int].1.whole();
    let name = bs[j as int].0@;
    let offset = state::slot_offset(16, j);
    let (s1, v) = st.load(ty, ptr, offset);
    let (s2, var) = s1.declare(ty);
    assert(a == s2.def_var(var, v).bind(name, var));
    assert(s1.grows_to(a));
    meaning::contains_on(p, s1, a);
    let y = w.read(ty, h + offset)->0;
    machine::reach_step(p, m);
    let m1 = release_runs::load_runs(p, m, m, st, ty, ptr, offset);
    running::step_on(p, m, m1, a, Inst::DeclareVar { ty });
    let m2 = Mach { pc: m1.pc + 1, ..m1 };
    assert(p.step(m1) == Event::Go(m2));
    running::step_on(p, m, m2, a, Inst::DefVar { var, val: v });
    let m3 = Mach { pc: m2.pc + 1, store: m.store.insert(var, y), ..m2 };
    assert(m2.has(v) && m2.val(v) == y);
    assert(p.step(m2) == Event::Go(m3));
    running::agrees_new(st, name, var, x, Sort::Integer(ty), w, m.store, y, y);
    m3
}

/// The members of a variant are bound to their names.
proof fn payload_runs(
    p: Prog,
    st: St,
    ptr: Val,
    bs: Seq<(String, ResolvedTy)>,
    j: nat,
    sorts: Map<Seq<char>, Sort>,
    names: World,
    m: Mach,
) -> (e: Mach)
    requires
        flow::core_bindings(bs, sorts),
        j <= bs.len(),
        st.binds(flow::bound_sorts(bs, sorts, j)),
        p.contains(st.bind_payload(ptr, bs, j)),
        m.pc == st.code.len(),
        m.has(ptr),
        ptr.0 < st.code.len(),
        flow::payload(bs, m.val(ptr), names, j) is Some,
        flow::payload(bs, m.val(ptr), names, bs.len()) is Some,
        meaning::agrees(
            st.vars,
            flow::bound_sorts(bs, sorts, j),
            flow::payload(bs, m.val(ptr), names, j)->0,
            m.store,
        ),
    ensures
        p.reaches(m, Event::Go(e)),
        e.pc == st.bind_payload(ptr, bs, j).code.len(),
        meaning::agrees(
            st.bind_payload(ptr, bs, j).vars,
            flow::bound_sorts(bs, sorts, bs.len()),
            flow::payload(bs, m.val(ptr), names, bs.len())->0,
            e.store,
        ),
    decreases bs.len() - j,
{
    machine::reach_step(p, m);
    if j < bs.len() {
        member_lowered(st, ptr, bs, j, sorts);
        let a = with_member(st, ptr, bs, j);
        payload_lowered(a, ptr, bs, j + 1, sorts);
        let t = st.bind_payload(ptr, bs, j);
        meaning::contains_on(p, a, t);
        let h = m.val(ptr);
        payload_exists(bs, h, names, j + 1);
        let w = flow::payload(bs, h, names, j)->0;
        let m3 = member_runs(p, st, ptr, bs, j, sorts, w, m);
        let e = payload_runs(p, a, ptr, bs, j + 1, sorts, names, m3);
        machine::reach_on(p, m, m3, Event::Go(e));
        e
    } else {
        m
    }
}

proof fn payload_exists(bs: Seq<(String, ResolvedTy)>, h: int, names: World, j: nat)
    requires
        j <= bs.len(),
        flow::payload(bs, h, names, bs.len()) is Some,
    ensures
        flow::payload(bs, h, names, j) is Some,
    decreases bs.len() - j,
{
    if j < bs.len() {
        payload_exists(bs, h, names, j + 1);
    }
}

/// What holds with the names of an arm holds with those outside it.
proof fn follows_outside(
    p: Prog,
    m: Mach,
    f: Flow,
    pc: nat,
    left: bool,
    exits: LoopExits,
    inner: Map<Seq<char>, Var>,
    more: Map<Seq<char>, Sort>,
    vars: Map<Seq<char>, Var>,
    next_vars: Map<Seq<char>, Var>,
    sorts: Map<Seq<char>, Sort>,
)
    requires
        p.follows(m, f, pc, left, exits, inner, more, inner, more),
        layout::same_vars(vars, inner, sorts),
        layout::same_vars(next_vars, inner, sorts),
        layout::same_sorts(sorts, more),
    ensures
        p.follows(m, f, pc, left, exits, vars, sorts, next_vars, sorts),
{
    reveal(Prog::follows);
    match f {
        Flow::Next(names) => {
            running::arrives_less(p, m, pc, next_vars, sorts, inner, more, names);
        },
        Flow::Break(names) => {
            let to = p.start((exits->0).1);
            running::arrives_less(p, m, to, vars, sorts, inner, more, names);
        },
        Flow::Continue(names) => {
            let to = p.start((exits->0).0);
            running::arrives_less(p, m, to, vars, sorts, inner, more, names);
        },
        Flow::Return(x) => {},
    }
}

/// The arms of a match from position `i` on do what the arm for the tag does.
proof fn arms_run(
    p: Prog,
    from: St,
    st: St,
    env: EnvView,
    exits: LoopExits,
    ptr: Val,
    tag: Val,
    merge: Blk,
    first: nat,
    arms: Seq<TypedMatchArm>,
    i: nat,
    all_left: bool,
    sorts: Map<Seq<char>, Sort>,
    looped: bool,
    names: World,
    fuel: nat,
    m: Mach,
    pc: nat,
    left: bool,
    next_vars: Map<Seq<char>, Var>,
)
    requires
        i <= arms.len(),
        st.binds(sorts),
        layout::same_vars(from.vars, st.vars, sorts),
        layout::same_vars(from.vars, next_vars, sorts),
        flow::core_arms(arms, i, sorts, looped),
        looped ==> exits is Some,
        st.awaits(
            from,
            seq![merge] + release_layout::row(first + i, (arms.len() - i + 1) as nat),
        ),
        p.single(),
        p.contains(st.arms(env, exits, ptr, tag, merge, first, arms, i, all_left)->Ok_0.0),
        left == st.arms(env, exits, ptr, tag, merge, first, arms, i, all_left)->Ok_0.1,
        !left ==> p.start(merge) == pc,
        m.pc == p.start(Blk((first + i) as usize)),
        m.has(ptr),
        m.has(tag),
        ptr.0 < st.code.len(),
        tag.0 < st.code.len(),
        meaning::agrees(st.vars, sorts, names, m.store),
        flow::arm_flow(
            arms,
            flow::arm_of(arms, m.val(tag), i),
            m.val(ptr),
            names,
            fuel,
        ) is Some,
    ensures
        p.follows(
            m,
            flow::arm_flow(
                arms,
                flow::arm_of(arms, m.val(tag), i),
                m.val(ptr),
                names,
                fuel,
            )->0,
            pc,
            left,
            exits,
            from.vars,
            sorts,
            next_vars,
            sorts,
        ),
    decreases fuel, arms, (arms.len() - i + 1) as nat,
{
    let k = flow::arm_of(arms, m.val(tag), i);
    assert(i < arms.len());
    arm_lowered(from, st, env, exits, ptr, tag, merge, first, arms, i, sorts, looped);
    let arm = arms[i as int];
    let bs = arm.bindings@;
    let more = flow::bound_sorts(bs, sorts, bs.len());
    let o = st.open_arm(tag, arm.variant_index, first, i);
    let a = o.bind_payload(ptr, bs, 0);
    let (sb, gone) = a.body(env, exits, arm.body@, 0)->Ok_0;
    let c = layout::closed_body(sb, gone, merge);
    let flag = all_left && gone;
    arms_unfold(st, env, exits, ptr, tag, merge, first, arms, i, all_left);
    arms_lowered(
        from,
        c,
        env,
        exits,
        ptr,
        tag,
        merge,
        first,
        arms,
        i + 1,
        flag,
        sorts,
        looped,
    );
    let t = st.arms(env, exits, ptr, tag, merge, first, arms, i, all_left)->Ok_0.0;
    meaning::grows_on(sb, c, t);
    meaning::grows_on(a, sb, t);
    meaning::grows_on(o, a, t);
    meaning::contains_on(p, c, t);
    meaning::contains_on(p, sb, t);
    meaning::contains_on(p, a, t);
    let m1 = release_runs::arm_tested(p, m, st, t, tag, arm.variant_index, first, i);
    assert(m1.has(ptr) && m1.val(ptr) == m.val(ptr));
    assert(m1.has(tag) && m1.val(tag) == m.val(tag));
    let f = flow::arm_flow(arms, k, m.val(ptr), names, fuel)->0;
    if m.val(tag) == machine::wrap(ClTy::I32, arm.variant_index as int) {
        assert(k == i);
        let w = flow::payload(bs, m.val(ptr), names, bs.len())->0;
        let e = payload_runs(p, o, ptr, bs, 0, sorts, names, m1);
        machine::reach_on(p, m, m1, Event::Go(e));
        running::body_runs(p, a, env, exits, arm.body@, 0, more, looped, w, fuel, e);
        running::body_then_jump(
            p,
            e,
            f,
            sb,
            gone,
            merge,
            pc,
            left,
            exits,
            a.vars,
            more,
            a.vars,
        );
        running::follows_on(p, m, e, f, pc, left, exits, a.vars, more, a.vars, more);
        assert(layout::same_vars(from.vars, a.vars, sorts));
        assert(layout::same_vars(next_vars, a.vars, sorts)) by {
            assert forall|x: Seq<char>| #[trigger]
                sorts.contains_key(x) implies next_vars.contains_key(x) && a.vars.contains_key(x)
                && next_vars[x] == a.vars[x] by {
                assert(from.vars[x] == next_vars[x]);
                assert(from.vars[x] == a.vars[x]);
            }
        }
        follows_outside(
            p,
            m,
            f,
            pc,
            left,
            exits,
            a.vars,
            more,
            from.vars,
            next_vars,
            sorts,
        );
    } else {
        running::agrees_less(c.vars, sorts, st.vars, sorts, names, m1.store);
        arms_run(
            p,
            from,
            c,
            env,
            exits,
            ptr,
            tag,
            merge,
            first,
            arms,
            i + 1,
            flag,
            sorts,
            looped,
            names,
            fuel,
            m1,
            pc,
            left,
            next_vars,
        );
        running::follows_on(
            p,
            m,
            m1,
            f,
            pc,
            left,
            exits,
            from.vars,
            sorts,
            next_vars,
            sorts,
        );
    }
}

/// Behind the arms the merge block is sealed.
proof fn follows_sealed(
    p: Prog,
    m: Mach,
    f: Flow,
    g: St,
    merge: Blk,
    exits: LoopExits,
    vars: Map<Seq<char>, Var>,
    next_vars: Map<Seq<char>, Var>,
    sorts: Map<Seq<char>, Sort>,
)
    requires
        p.follows(m, f, g.code.len(), false, exits, vars, sorts, next_vars, sorts),
        p.contains(g.seal(merge)),
    ensures
        p.follows(m, f, g.seal(merge).code.len(), false, exits, vars, sorts, next_vars, sorts),
{
    reveal(Prog::follows);
    match f {
        Flow::Next(names) => {
            let e = choose|e: Mach| #[trigger]
                p.reaches(m, Event::Go(e)) && e.pc == g.code.len() && meaning::agrees(
                    next_vars,
                    sorts,
                    names,
                    e.store,
                );
            let e1 = release_runs::seal_runs(p, m, e, g, merge);
            assert(p.arrives(m, g.seal(merge).code.len(), next_vars, sorts, names));
        },
        _ => {},
    }
}

/// The code of a match does what the match does.
pub proof fn match_runs(
    p: Prog,
    st: St,
    env: EnvView,
    exits: LoopExits,
    s: TypedStmt,
    sorts: Map<Seq<char>, Sort>,
    looped: bool,
    names: World,
    fuel: nat,
    m: Mach,
)
    requires
        p.stmt_at(st, env, exits, s, sorts, looped, names, fuel, m),
        s is Match,
    ensures
        p.runs_stmt(st, env, exits, s, sorts, names, fuel, m),
    decreases fuel, s, 0nat,
{
    match_shape(st, env, exits, s, sorts, looped);
    let arms = s->arms@;
    let n = arms.len();
    let (s1, ptr) = st.expr(env, s->scrutinee)->Ok_0;
    let (a, tag) = s1.load(ClTy::I32, ptr, 8);
    let (b, merge) = a.blk();
    let first = b.code.len();
    let (c, unreachable) = b.blocks(n).blk();
    let d = if n > 0 {
        c.jump(Blk(first as usize))
    } else {
        c
    };
    let (f, left) = d.arms(env, exits, ptr, tag, merge, first, arms, 0, true)->Ok_0;
    let g = f.close_arms(unreachable);
    let t = st.stmt(env, exits, s)->Ok_0.0;
    meaning::grows_on(d, f, t);
    meaning::grows_on(c, d, t);
    meaning::grows_on(s1, c, t);
    meaning::contains_on(p, f, t);
    meaning::contains_on(p, d, t);
    meaning::contains_on(p, c, t);
    meaning::contains_on(p, s1, t);
    let h = meaning::meaning(s->scrutinee, names)->0;
    let k = names.read(ClTy::I32, h + 8)->0;
    assert(flow::arm_of(arms, k, 0) < n);
    assert(flow::sort_of(s->scrutinee) is Integer);
    let m1 = running::value_run(p, st, env, s->scrutinee, sorts, names, m);
    assert(m1.val(ptr) == h);
    let m2 = release_runs::switch_entered(p, names.heap.cells, s1, ptr, n, m1);
    machine::reach_on(p, m, m1, Event::Go(m2));
    let m3 = release_runs::jump_runs(p, m, m2, c, Blk(first as usize));
    if !left {
        running::start_behind(p, g, merge, t);
    }
    let pc = if left {
        t.code.len()
    } else {
        g.switch_to(merge).code.len()
    };
    let w = flow::stmt_flow(s, names, fuel)->0;
    arms_run(
        p,
        s1,
        d,
        env,
        exits,
        ptr,
        tag,
        merge,
        first,
        arms,
        0,
        true,
        sorts,
        looped,
        names,
        fuel,
        m3,
        pc,
        left,
        t.vars,
    );
    running::follows_on(p, m, m3, w, pc, left, exits, st.vars, sorts, t.vars, sorts);
    if !left {
        follows_sealed(p, m, w, g.switch_to(merge), merge, exits, st.vars, t.vars, sorts);
    }
}

} // verus!
