//! That the code of statements on integers, truth values and boxes does, when
//! it runs, what the statements do.

use crate::codegen_cpu::box_builds;
use crate::codegen_cpu::box_stmts;
use crate::codegen_cpu::box_writes;
use crate::codegen_cpu::flow;
use crate::codegen_cpu::flow::Flow;
use crate::codegen_cpu::inst::{Arith, Blk, ClTy, Inst, IntCc, Val, Var};
use crate::codegen_cpu::layout;
use crate::codegen_cpu::machine;
use crate::codegen_cpu::machine::{Event, Mach, Prog, Store};
use crate::codegen_cpu::match_runs;
use crate::codegen_cpu::meaning;
use crate::codegen_cpu::meaning::{Sort, World};
use crate::codegen_cpu::release_layout;
use crate::codegen_cpu::release_runs;
use crate::codegen_cpu::scheme_stmt::LoopExits;
use crate::codegen_cpu::state::{EnvView, St};
use crate::codegen_cpu::symbols::RtSym;
use crate::typed::{TypedExpr, TypedStmt};
use vstd::prelude::*;

verus! {

impl Prog {
    /// Whether a run comes to a position with the variables holding the values
    /// of the names.
    pub open spec fn arrives(
        self,
        m: Mach,
        pc: nat,
        vars: Map<Seq<char>, Var>,
        sorts: Map<Seq<char>, Sort>,
        names: World,
    ) -> bool {
        exists|e: Mach| #[trigger]
            self.reaches(m, Event::Go(e)) && e.pc == pc && meaning::agrees(
                vars,
                sorts,
                names,
                e.store,
            )
    }

    /// Whether a run ends as statements do: behind them, at the exits of the
    /// loop around them, or with the function.
    #[verifier::opaque]
    pub open spec fn follows(
        self,
        m: Mach,
        f: Flow,
        pc: nat,
        left: bool,
        exits: LoopExits,
        vars: Map<Seq<char>, Var>,
        sorts: Map<Seq<char>, Sort>,
        next_vars: Map<Seq<char>, Var>,
        next_sorts: Map<Seq<char>, Sort>,
    ) -> bool {
        match f {
            Flow::Next(names) => !left && self.arrives(m, pc, next_vars, next_sorts, names),
            Flow::Break(names) => exits is Some && self.arrives(
                m,
                self.start((exits->0).1),
                vars,
                sorts,
                names,
            ),
            Flow::Continue(names) => exits is Some && self.arrives(
                m,
                self.start((exits->0).0),
                vars,
                sorts,
                names,
            ),
            Flow::Return(x) => self.reaches(m, Event::Leave(x)),
        }
    }
}

impl Prog {
    /// Whether a run stands before the code of a statement that ends.
    pub open spec fn stmt_at(
        self,
        st: St,
        env: EnvView,
        exits: LoopExits,
        s: TypedStmt,
        sorts: Map<Seq<char>, Sort>,
        looped: bool,
        names: World,
        fuel: nat,
        m: Mach,
    ) -> bool {
        &&& st.binds(sorts)
        &&& flow::core_stmt(s, sorts, looped)
        &&& looped ==> exits is Some
        &&& st.stmt(env, exits, s) is Ok
        &&& self.single()
        &&& self.contains(st.stmt(env, exits, s)->Ok_0.0)
        &&& m.pc == st.code.len()
        &&& meaning::agrees(st.vars, sorts, names, m.store)
        &&& flow::stmt_flow(s, names, fuel) is Some
    }

    /// Whether the run then ends as the statement does.
    pub open spec fn runs_stmt(
        self,
        st: St,
        env: EnvView,
        exits: LoopExits,
        s: TypedStmt,
        sorts: Map<Seq<char>, Sort>,
        names: World,
        fuel: nat,
        m: Mach,
    ) -> bool {
        let (t, left) = st.stmt(env, exits, s)->Ok_0;
        self.follows(
            m,
            flow::stmt_flow(s, names, fuel)->0,
            t.code.len(),
            left,
            exits,
            st.vars,
            sorts,
            t.vars,
            flow::after(s, sorts),
        )
    }

    /// Whether a run stands before the code of statements that end.
    pub open spec fn body_at(
        self,
        st: St,
        env: EnvView,
        exits: LoopExits,
        b: Seq<TypedStmt>,
        i: nat,
        sorts: Map<Seq<char>, Sort>,
        looped: bool,
        names: World,
        fuel: nat,
        m: Mach,
    ) -> bool {
        &&& st.binds(sorts)
        &&& flow::core_body(b, i, sorts, looped)
        &&& looped ==> exits is Some
        &&& st.body(env, exits, b, i) is Ok
        &&& self.single()
        &&& self.contains(st.body(env, exits, b, i)->Ok_0.0)
        &&& m.pc == st.code.len()
        &&& meaning::agrees(st.vars, sorts, names, m.store)
        &&& flow::body_flow(b, i, names, fuel) is Some
    }

    /// Whether the run then ends as the statements do.
    pub open spec fn runs_body(
        self,
        st: St,
        env: EnvView,
        exits: LoopExits,
        b: Seq<TypedStmt>,
        i: nat,
        sorts: Map<Seq<char>, Sort>,
        names: World,
        fuel: nat,
        m: Mach,
    ) -> bool {
        let (t, left) = st.body(env, exits, b, i)->Ok_0;
        self.follows(
            m,
            flow::body_flow(b, i, names, fuel)->0,
            t.code.len(),
            left,
            exits,
            st.vars,
            sorts,
            st.vars,
            sorts,
        )
    }
}

pub proof fn agrees_less(
    a: Map<Seq<char>, Var>,
    sorts: Map<Seq<char>, Sort>,
    b: Map<Seq<char>, Var>,
    more: Map<Seq<char>, Sort>,
    names: World,
    store: Store,
)
    requires
        meaning::agrees(b, more, names, store),
        layout::same_vars(a, b, sorts),
        layout::same_sorts(sorts, more),
    ensures
        meaning::agrees(a, sorts, names, store),
{
    assert forall|n: Seq<char>| #![trigger sorts.contains_key(n)] sorts.contains_key(n) implies {
        &&& names.contains_key(n)
        &&& store.contains_key(a[n])
        &&& meaning::stands_for(sorts[n], store[a[n]], names[n])
    } by {
        assert(more.contains_key(n));
    }
}

pub proof fn arrives_less(
    p: Prog,
    m: Mach,
    pc: nat,
    a: Map<Seq<char>, Var>,
    sorts: Map<Seq<char>, Sort>,
    b: Map<Seq<char>, Var>,
    more: Map<Seq<char>, Sort>,
    names: World,
)
    requires
        p.arrives(m, pc, b, more, names),
        layout::same_vars(a, b, sorts),
        layout::same_sorts(sorts, more),
    ensures
        p.arrives(m, pc, a, sorts, names),
{
    let e = choose|e: Mach| #[trigger]
        p.reaches(m, Event::Go(e)) && e.pc == pc && meaning::agrees(b, more, names, e.store);
    agrees_less(a, sorts, b, more, names, e.store);
}

proof fn arrives_on(
    p: Prog,
    m: Mach,
    mid: Mach,
    pc: nat,
    vars: Map<Seq<char>, Var>,
    sorts: Map<Seq<char>, Sort>,
    names: World,
)
    requires
        p.reaches(m, Event::Go(mid)),
        p.arrives(mid, pc, vars, sorts, names),
    ensures
        p.arrives(m, pc, vars, sorts, names),
{
    let e = choose|e: Mach| #[trigger]
        p.reaches(mid, Event::Go(e)) && e.pc == pc && meaning::agrees(vars, sorts, names, e.store);
    machine::reach_on(p, m, mid, Event::Go(e));
}

/// What holds behind a run holds of the whole.
pub proof fn follows_on(
    p: Prog,
    m: Mach,
    mid: Mach,
    f: Flow,
    pc: nat,
    left: bool,
    exits: LoopExits,
    vars: Map<Seq<char>, Var>,
    sorts: Map<Seq<char>, Sort>,
    next_vars: Map<Seq<char>, Var>,
    next_sorts: Map<Seq<char>, Sort>,
)
    requires
        p.reaches(m, Event::Go(mid)),
        p.follows(mid, f, pc, left, exits, vars, sorts, next_vars, next_sorts),
    ensures
        p.follows(m, f, pc, left, exits, vars, sorts, next_vars, next_sorts),
{
    reveal(Prog::follows);
    match f {
        Flow::Next(names) => {
            arrives_on(p, m, mid, pc, next_vars, next_sorts, names);
        },
        Flow::Break(names) => {
            arrives_on(p, m, mid, p.start((exits->0).1), vars, sorts, names);
        },
        Flow::Continue(names) => {
            arrives_on(p, m, mid, p.start((exits->0).0), vars, sorts, names);
        },
        Flow::Return(x) => {
            machine::reach_on(p, m, mid, Event::Leave(x));
        },
    }
}

/// One more instruction of a run.
pub proof fn step_on(p: Prog, m: Mach, mid: Mach, st: St, i: Inst)
    requires
        p.reaches(m, Event::Go(mid)),
        p.contains(st),
        mid.pc < st.code.len(),
        st.code[mid.pc as int] == i,
    ensures
        p.reaches(m, p.step(mid)),
        mid.pc < p.insts.len(),
        p.insts[mid.pc as int] == i,
{
    assert(p.insts[mid.pc as int] == st.code[mid.pc as int]);
    machine::reach_step(p, mid);
    machine::reach_on(p, m, mid, p.step(mid));
}

/// Where a block starts that begins behind a state.
pub proof fn start_behind(p: Prog, a: St, b: Blk, t: St)
    requires
        p.single(),
        p.contains(t),
        a.switch_to(b).grows_to(t),
    ensures
        p.start(b) == a.code.len() + 1,
{
    let at = a.code.len();
    let s = a.switch_to(b);
    assert(s.code[at as int] == (Inst::SwitchTo { target: b }));
    assert(t.code[at as int] == s.code[at as int]);
    assert(p.insts[at as int] == t.code[at as int]);
    assert(p.begins(b, at));
    machine::start_of(p, b, at);
}

/// The code of an expression computes what stands for its value.
pub proof fn value_run(
    p: Prog,
    st: St,
    env: EnvView,
    e: TypedExpr,
    sorts: Map<Seq<char>, Sort>,
    names: World,
    m: Mach,
) -> (end: Mach)
    requires
        st.binds(sorts),
        flow::core_expr(e, sorts),
        st.expr(env, e) is Ok,
        p.contains(st.expr(env, e)->Ok_0.0),
        m.pc == st.code.len(),
        meaning::agrees(st.vars, sorts, names, m.store),
        flow::value(e, names) is Some,
    ensures
        p.reaches(m, Event::Go(end)),
        p.evaluated(m, st, st.expr(env, e)->Ok_0.0, st.expr(env, e)->Ok_0.1, end),
        meaning::stands_for(
            flow::sort_of(e),
            end.val(st.expr(env, e)->Ok_0.1),
            flow::value(e, names)->0,
        ),
{
    let (t, v) = st.expr(env, e)->Ok_0;
    if meaning::integer_expr(e, sorts) {
        meaning::integers_are_computed(p, st, env, e, sorts, names, m);
    } else {
        meaning::truths_are_computed(p, st, env, e, sorts, names, m);
    }
    let n = (t.code.len() - st.code.len()) as nat;
    assert(p.run(m, n) == p.between(m, st, t));
    p.between(m, st, t)->Go_0
}

/// A new name holds its value.
pub proof fn agrees_new(
    st: St,
    name: Seq<char>,
    var: Var,
    sorts: Map<Seq<char>, Sort>,
    sort: Sort,
    names: World,
    store: Store,
    content: int,
    value: int,
)
    requires
        st.binds(sorts),
        st.fits(),
        st.code.len() <= var.0,
        meaning::agrees(st.vars, sorts, names, store),
        meaning::stands_for(sort, content, value),
    ensures
        meaning::agrees(
            st.vars.insert(name, var),
            sorts.insert(name, sort),
            names.insert(name, value),
            store.insert(var, content),
        ),
{
    let more = sorts.insert(name, sort);
    let vars = st.vars.insert(name, var);
    assert forall|n: Seq<char>| #![trigger more.contains_key(n)] more.contains_key(n) implies {
        &&& names.insert(name, value).contains_key(n)
        &&& store.insert(var, content).contains_key(vars[n])
        &&& meaning::stands_for(
            more[n],
            store.insert(var, content)[vars[n]],
            names.insert(name, value)[n],
        )
    } by {
        if n != name {
            assert(sorts.contains_key(n));
            assert(st.vars[n] != var);
        }
    }
}

proof fn let_runs(
    p: Prog,
    st: St,
    env: EnvView,
    exits: LoopExits,
    s: TypedStmt,
    sorts: Map<Seq<char>, Sort>,
    looped: bool,
    names: World,
    fuel: nat,
    m: Mach,
)
    requires
        p.stmt_at(st, env, exits, s, sorts, looped, names, fuel, m),
        s is Let,
        !flow::builds(s->Let_expr),
    ensures
        p.runs_stmt(st, env, exits, s, sorts, names, fuel, m),
{
    let name = s->Let_name@;
    let expr = s->Let_expr;
    layout::values_are_lowered(st, env, expr, sorts);
    let (s1, v) = st.expr(env, expr)->Ok_0;
    let (s2, var) = s1.declare(flow::sort_of(expr).machine());
    let s3 = s2.def_var(var, v);
    let t = s3.bind(name, var);
    assert(st.stmt(env, exits, s)->Ok_0 == (t, false));
    assert(s1.grows_to(t));
    meaning::contains_on(p, s1, t);
    let end = value_run(p, st, env, expr, sorts, names, m);
    let x = flow::value(expr, names)->0;
    step_on(p, m, end, t, Inst::DeclareVar { ty: flow::sort_of(expr).machine() });
    let m1 = Mach { pc: end.pc + 1, ..end };
    step_on(p, m, m1, t, Inst::DefVar { var, val: v });
    let m2 = Mach { pc: m1.pc + 1, store: end.store.insert(var, end.val(v)), ..m1 };
    assert(p.step(m1) == Event::Go(m2));
    agrees_new(s1, name, var, sorts, flow::sort_of(expr), names, m.store, end.val(v), x);
    reveal(Prog::follows);
    assert(p.arrives(m, t.code.len(), t.vars, flow::after(s, sorts), names.insert(name, x)));
}

/// A name that is assigned to holds its new value.
proof fn agrees_set(
    st: St,
    name: Seq<char>,
    sorts: Map<Seq<char>, Sort>,
    names: World,
    store: Store,
    content: int,
    value: int,
)
    requires
        st.binds(sorts),
        st.fits(),
        sorts.contains_key(name),
        meaning::agrees(st.vars, sorts, names, store),
        meaning::stands_for(sorts[name], content, value),
    ensures
        meaning::agrees(
            st.vars,
            sorts,
            names.insert(name, value),
            store.insert(st.vars[name], content),
        ),
{
    let var = st.vars[name];
    assert forall|n: Seq<char>| #![trigger sorts.contains_key(n)] sorts.contains_key(n) implies {
        &&& names.insert(name, value).contains_key(n)
        &&& store.insert(var, content).contains_key(st.vars[n])
        &&& meaning::stands_for(
            sorts[n],
            store.insert(var, content)[st.vars[n]],
            names.insert(name, value)[n],
        )
    } by {}
}

proof fn assign_runs(
    p: Prog,
    st: St,
    env: EnvView,
    exits: LoopExits,
    s: TypedStmt,
    sorts: Map<Seq<char>, Sort>,
    looped: bool,
    names: World,
    fuel: nat,
    m: Mach,
)
    requires
        p.stmt_at(st, env, exits, s, sorts, looped, names, fuel, m),
        s is Assign,
        s->Assign_target is Ident,
    ensures
        p.runs_stmt(st, env, exits, s, sorts, names, fuel, m),
{
    let target = s->Assign_target;
    let expr = s->Assign_expr;
    let name = target->Ident_0@;
    layout::values_are_lowered(st, env, expr, sorts);
    let (s1, v) = st.expr(env, expr)->Ok_0;
    let i = Inst::DefVar { var: st.vars[name], val: v };
    let t = s1.emit(i);
    assert(st.vars.contains_key(name));
    assert(st.stmt(env, exits, s) == st.assign(env, target, expr));
    assert(st.stmt(env, exits, s)->Ok_0 == (t, false));
    assert(s1.grows_to(t));
    meaning::contains_on(p, s1, t);
    let end = value_run(p, st, env, expr, sorts, names, m);
    let x = flow::value(expr, names)->0;
    step_on(p, m, end, t, i);
    let m1 = Mach {
        pc: end.pc + 1,
        store: end.store.insert(st.vars[name], end.val(v)),
        ..end
    };
    assert(p.step(end) == Event::Go(m1));
    agrees_set(s1, name, sorts, names, m.store, end.val(v), x);
    reveal(Prog::follows);
    assert(p.arrives(m, t.code.len(), t.vars, sorts, names.insert(name, x)));
}

proof fn return_runs(
    p: Prog,
    st: St,
    env: EnvView,
    exits: LoopExits,
    s: TypedStmt,
    sorts: Map<Seq<char>, Sort>,
    looped: bool,
    names: World,
    fuel: nat,
    m: Mach,
)
    requires
        p.stmt_at(st, env, exits, s, sorts, looped, names, fuel, m),
        s is Return,
    ensures
        p.runs_stmt(st, env, exits, s, sorts, names, fuel, m),
{
    let expr = s->Return_expr;
    layout::values_are_lowered(st, env, expr, sorts);
    let (s1, v) = st.expr(env, expr)->Ok_0;
    let s2 = layout::before_return(s1, expr, v);
    let t = s2.emit(Inst::Return { val: v });
    let x = flow::value(expr, names)->0;
    assert(st.stmt(env, exits, s)->Ok_0 == (t, true));
    assert(s2.grows_to(t));
    if s2 != s1 {
        release_layout::adds_act(s1, RtSym::AggregateRetain, v);
    }
    meaning::contains_on(p, s2, t);
    meaning::contains_on(p, s1, s2);
    let end = value_run(p, st, env, expr, sorts, names, m);
    assert(end.val(v) == x);
    let last = if expr.ty is List && expr.kind is FieldAccess {
        release_runs::act_runs(p, m, end, s1, RtSym::AggregateRetain, v)
    } else {
        end
    };
    assert(last.has(v) && last.val(v) == x);
    step_on(p, m, last, t, Inst::Return { val: v });
    assert(last.leaves(Some(x)) == flow::returning(expr, x, names).leaves(Some(x)));
    reveal(Prog::follows);
}

proof fn jump_runs(
    p: Prog,
    st: St,
    env: EnvView,
    exits: LoopExits,
    s: TypedStmt,
    sorts: Map<Seq<char>, Sort>,
    looped: bool,
    names: World,
    fuel: nat,
    m: Mach,
)
    requires
        p.stmt_at(st, env, exits, s, sorts, looped, names, fuel, m),
        s is Break || s is Continue,
    ensures
        p.runs_stmt(st, env, exits, s, sorts, names, fuel, m),
{
    let target = if s is Break {
        (exits->0).1
    } else {
        (exits->0).0
    };
    let t = st.jump(target);
    assert(st.stmt(env, exits, s)->Ok_0 == (t, true));
    machine::reach_step(p, m);
    step_on(p, m, m, t, Inst::Jump { target });
    let m1 = Mach { pc: p.start(target), ..m };
    assert(p.step(m) == Event::Go(m1));
    reveal(Prog::follows);
    assert(p.arrives(m, p.start(target), st.vars, sorts, names));
}

/// A run that ends as a body does ends as the body with a jump behind it.
pub proof fn body_then_jump(
    p: Prog,
    m: Mach,
    f: Flow,
    sb: St,
    left: bool,
    target: Blk,
    pc: nat,
    leaves: bool,
    exits: LoopExits,
    vars: Map<Seq<char>, Var>,
    sorts: Map<Seq<char>, Sort>,
    next_vars: Map<Seq<char>, Var>,
)
    requires
        p.follows(m, f, sb.code.len(), left, exits, vars, sorts, vars, sorts),
        p.contains(layout::closed_body(sb, left, target)),
        !left ==> p.start(target) == pc,
        leaves ==> left,
        layout::same_vars(next_vars, vars, sorts),
    ensures
        p.follows(m, f, pc, leaves, exits, vars, sorts, next_vars, sorts),
{
    reveal(Prog::follows);
    match f {
        Flow::Next(names) => {
            let e = choose|e: Mach| #[trigger]
                p.reaches(m, Event::Go(e)) && e.pc == sb.code.len() && meaning::agrees(
                    vars,
                    sorts,
                    names,
                    e.store,
                );
            step_on(p, m, e, sb.jump(target), Inst::Jump { target });
            let e1 = Mach { pc: p.start(target), ..e };
            assert(p.step(e) == Event::Go(e1));
            agrees_less(next_vars, sorts, vars, sorts, names, e.store);
            assert(p.arrives(m, pc, next_vars, sorts, names));
        },
        _ => {},
    }
}

/// The code of a condition decides it.
proof fn truth_run(
    p: Prog,
    st: St,
    env: EnvView,
    e: TypedExpr,
    sorts: Map<Seq<char>, Sort>,
    names: World,
    m: Mach,
) -> (end: Mach)
    requires
        st.binds(sorts),
        meaning::truth_expr(e, sorts),
        st.expr(env, e) is Ok,
        p.contains(st.expr(env, e)->Ok_0.0),
        m.pc == st.code.len(),
        meaning::agrees(st.vars, sorts, names, m.store),
        meaning::truth(e, names) is Some,
    ensures
        p.reaches(m, Event::Go(end)),
        end.pc == st.expr(env, e)->Ok_0.0.code.len(),
        end.store == m.store,
        end.has(st.expr(env, e)->Ok_0.1),
        (end.val(st.expr(env, e)->Ok_0.1) != 0) == meaning::truth(e, names)->0,
{
    let (t, v) = st.expr(env, e)->Ok_0;
    meaning::truths_are_computed(p, st, env, e, sorts, names, m);
    let n = (t.code.len() - st.code.len()) as nat;
    assert(p.run(m, n) == p.between(m, st, t));
    p.between(m, st, t)->Go_0
}

/// A branch on a value behind two or more declarations of blocks.
proof fn branch_run(
    p: Prog,
    m: Mach,
    end: Mach,
    a: St,
    n: nat,
    t: St,
    cond: Val,
    then_blk: Blk,
    else_blk: Blk,
) -> (e: Mach)
    requires
        p.reaches(m, Event::Go(end)),
        end.pc + n == a.code.len(),
        forall|k: int|
            end.pc <= k < a.code.len() ==> #[trigger] a.code[k] == Inst::Block,
        a.brif(cond, then_blk, else_blk).grows_to(t),
        p.contains(t),
        end.has(cond),
    ensures
        p.reaches(m, Event::Go(e)),
        e.store == end.store,
        end.val(cond) != 0 ==> e.pc == p.start(then_blk),
        end.val(cond) == 0 ==> e.pc == p.start(else_blk),
    decreases n,
{
    let s = a.brif(cond, then_blk, else_blk);
    let at = end.pc;
    assert(t.code[at as int] == s.code[at as int]);
    if n == 0 {
        step_on(p, m, end, t, Inst::Brif { cond, then_blk, else_blk });
        p.step(end)->Go_0
    } else {
        assert(s.code[at as int] == a.code[at as int]);
        step_on(p, m, end, t, Inst::Block);
        let next = Mach { pc: end.pc + 1, ..end };
        assert(p.step(end) == Event::Go(next));
        branch_run(p, m, next, a, (n - 1) as nat, t, cond, then_blk, else_blk)
    }
}

proof fn if_runs(
    p: Prog,
    st: St,
    env: EnvView,
    exits: LoopExits,
    s: TypedStmt,
    sorts: Map<Seq<char>, Sort>,
    looped: bool,
    names: World,
    fuel: nat,
    m: Mach,
)
    requires
        p.stmt_at(st, env, exits, s, sorts, looped, names, fuel, m),
        s is If,
        s->else_body is None,
    ensures
        p.runs_stmt(st, env, exits, s, sorts, names, fuel, m),
    decreases fuel, s, 0nat,
{
    layout::if_shape(st, env, exits, s, sorts, looped);
    let condition = s->If_condition;
    let body = s->then_body@;
    let (s1, cond) = st.expr(env, condition)->Ok_0;
    let (a1, then_blk) = s1.blk();
    let (a2, merge) = a1.blk();
    let a3 = a2.brif(cond, then_blk, merge);
    let s2 = a3.switch_to(then_blk);
    let (sb, left) = s2.body(env, exits, body, 0)->Ok_0;
    let s3 = layout::closed_body(sb, left, merge);
    let t = s3.switch_to(merge);
    assert(a3.grows_to(s2));
    meaning::grows_on(a3, s2, t);
    meaning::contains_on(p, s1, t);
    let end = truth_run(p, st, env, condition, sorts, names, m);
    let e = branch_run(p, m, end, a2, 2, t, cond, then_blk, merge);
    start_behind(p, a3, then_blk, t);
    assert(t.grows_to(t));
    start_behind(p, s3, merge, t);
    if meaning::truth(condition, names)->0 {
        meaning::contains_on(p, s3, t);
        meaning::contains_on(p, sb, s3);
        body_runs(p, s2, env, exits, body, 0, sorts, looped, names, fuel, e);
        let f = flow::body_flow(body, 0, names, fuel)->0;
        let pc = t.code.len();
        body_then_jump(p, e, f, sb, left, merge, pc, false, exits, s2.vars, sorts, t.vars);
        follows_on(p, m, e, f, pc, false, exits, st.vars, sorts, t.vars, sorts);
    } else {
        reveal(Prog::follows);
        agrees_less(t.vars, sorts, st.vars, sorts, names, e.store);
        assert(p.arrives(m, t.code.len(), t.vars, sorts, names));
    }
}

proof fn if_else_runs(
    p: Prog,
    st: St,
    env: EnvView,
    exits: LoopExits,
    s: TypedStmt,
    sorts: Map<Seq<char>, Sort>,
    looped: bool,
    names: World,
    fuel: nat,
    m: Mach,
)
    requires
        p.stmt_at(st, env, exits, s, sorts, looped, names, fuel, m),
        s is If,
        s->else_body is Some,
    ensures
        p.runs_stmt(st, env, exits, s, sorts, names, fuel, m),
    decreases fuel, s, 0nat,
{
    layout::if_else_shape(st, env, exits, s, sorts, looped);
    let condition = s->If_condition;
    let body = s->then_body@;
    let other = (s->else_body->0)@;
    let (s1, cond) = st.expr(env, condition)->Ok_0;
    let (a1, then_blk) = s1.blk();
    let (a2, merge) = a1.blk();
    let (a3, else_blk) = a2.blk();
    let a4 = a3.brif(cond, then_blk, else_blk);
    let s2 = a4.switch_to(then_blk);
    let (sb, left) = s2.body(env, exits, body, 0)->Ok_0;
    let s3 = layout::closed_body(sb, left, merge);
    let s4 = s3.switch_to(else_blk);
    let (sc, right) = s4.body(env, exits, other, 0)->Ok_0;
    let s5 = layout::closed_body(sc, right, merge);
    let t = st.stmt(env, exits, s)->Ok_0.0;
    let both = left && right;
    assert(a4.grows_to(s2));
    meaning::grows_on(a4, s2, t);
    meaning::contains_on(p, s1, t);
    let end = truth_run(p, st, env, condition, sorts, names, m);
    let e = branch_run(p, m, end, a3, 3, t, cond, then_blk, else_blk);
    start_behind(p, a4, then_blk, t);
    start_behind(p, s3, else_blk, t);
    if !both {
        assert(t.grows_to(t));
        start_behind(p, s5, merge, t);
    }
    let pc = t.code.len();
    if meaning::truth(condition, names)->0 {
        meaning::contains_on(p, s3, t);
        meaning::contains_on(p, sb, s3);
        body_runs(p, s2, env, exits, body, 0, sorts, looped, names, fuel, e);
        let f = flow::body_flow(body, 0, names, fuel)->0;
        body_then_jump(p, e, f, sb, left, merge, pc, both, exits, s2.vars, sorts, t.vars);
        follows_on(p, m, e, f, pc, both, exits, st.vars, sorts, t.vars, sorts);
    } else {
        meaning::contains_on(p, s5, t);
        meaning::contains_on(p, sc, s5);
        agrees_less(s4.vars, sorts, st.vars, sorts, names, e.store);
        body_runs(p, s4, env, exits, other, 0, sorts, looped, names, fuel, e);
        let f = flow::body_flow(other, 0, names, fuel)->0;
        body_then_jump(p, e, f, sc, right, merge, pc, both, exits, s4.vars, sorts, t.vars);
        follows_on(p, m, e, f, pc, both, exits, s4.vars, sorts, t.vars, sorts);
        follows_less(p, m, f, pc, both, exits, st.vars, sorts, s4.vars, sorts, t.vars, sorts);
    }
}

/// What holds with more names holds with fewer.
proof fn follows_less(
    p: Prog,
    m: Mach,
    f: Flow,
    pc: nat,
    left: bool,
    exits: LoopExits,
    vars: Map<Seq<char>, Var>,
    sorts: Map<Seq<char>, Sort>,
    more_vars: Map<Seq<char>, Var>,
    more: Map<Seq<char>, Sort>,
    next_vars: Map<Seq<char>, Var>,
    next_sorts: Map<Seq<char>, Sort>,
)
    requires
        p.follows(m, f, pc, left, exits, more_vars, more, next_vars, next_sorts),
        layout::same_vars(vars, more_vars, sorts),
        layout::same_sorts(sorts, more),
    ensures
        p.follows(m, f, pc, left, exits, vars, sorts, next_vars, next_sorts),
{
    reveal(Prog::follows);
    match f {
        Flow::Break(names) => {
            arrives_less(p, m, p.start((exits->0).1), vars, sorts, more_vars, more, names);
        },
        Flow::Continue(names) => {
            arrives_less(p, m, p.start((exits->0).0), vars, sorts, more_vars, more, names);
        },
        _ => {},
    }
}

/// Declarations of blocks, then a jump.
proof fn jump_run(p: Prog, m: Mach, end: Mach, a: St, n: nat, t: St, target: Blk) -> (e: Mach)
    requires
        p.reaches(m, Event::Go(end)),
        end.pc + n == a.code.len(),
        forall|k: int|
            end.pc <= k < a.code.len() ==> #[trigger] a.code[k] == Inst::Block,
        a.jump(target).grows_to(t),
        p.contains(t),
    ensures
        p.reaches(m, Event::Go(e)),
        e.store == end.store,
        e.pc == p.start(target),
    decreases n,
{
    let s = a.jump(target);
    let at = end.pc;
    assert(t.code[at as int] == s.code[at as int]);
    if n == 0 {
        step_on(p, m, end, t, Inst::Jump { target });
        p.step(end)->Go_0
    } else {
        assert(s.code[at as int] == a.code[at as int]);
        step_on(p, m, end, t, Inst::Block);
        let next = Mach { pc: end.pc + 1, ..end };
        assert(p.step(end) == Event::Go(next));
        jump_run(p, m, next, a, (n - 1) as nat, t, target)
    }
}

/// Where the blocks of a loop with a condition start.
proof fn while_starts(
    p: Prog,
    st: St,
    env: EnvView,
    exits: LoopExits,
    s: TypedStmt,
    sorts: Map<Seq<char>, Sort>,
    looped: bool,
)
    requires
        st.binds(sorts),
        flow::core_stmt(s, sorts, looped),
        s is While,
        p.single(),
        p.contains(st.stmt(env, exits, s)->Ok_0.0),
    ensures
        ({
            let (a0, header) = st.blk();
            let (a1, body_blk) = a0.blk();
            let (a2, exit) = a1.blk();
            let s2 = a2.jump(header).switch_to(header);
            let (s3, cond) = s2.expr(env, s->While_condition)->Ok_0;
            let a4 = s3.brif(cond, body_blk, exit);
            let s4 = a4.switch_to(body_blk);
            let (sb, left) = s4.body(env, Some((header, exit)), s->While_body@, 0)->Ok_0;
            let s5 = layout::closed_body(sb, left, header);
            let t = s5.switch_to(exit);
            &&& st.stmt(env, exits, s)->Ok_0 == (t, false)
            &&& a2.jump(header).grows_to(t)
            &&& s2.binds(sorts)
            &&& s2.vars == st.vars
            &&& s2.expr(env, s->While_condition) is Ok
            &&& p.contains(s3)
            &&& a4.grows_to(t)
            &&& s4.binds(sorts)
            &&& s4.vars == st.vars
            &&& s4.body(env, Some((header, exit)), s->While_body@, 0) is Ok
            &&& p.contains(sb)
            &&& p.contains(s5)
            &&& p.start(header) == s2.code.len()
            &&& p.start(body_blk) == s4.code.len()
            &&& p.start(exit) == t.code.len()
            &&& layout::same_vars(st.vars, t.vars, sorts)
        }),
{
    layout::while_shape(st, env, exits, s, sorts, looped);
    let (a0, header) = st.blk();
    let (a1, body_blk) = a0.blk();
    let (a2, exit) = a1.blk();
    let a3 = a2.jump(header);
    let s2 = a3.switch_to(header);
    let (s3, cond) = s2.expr(env, s->While_condition)->Ok_0;
    let a4 = s3.brif(cond, body_blk, exit);
    let s4 = a4.switch_to(body_blk);
    let (sb, left) = s4.body(env, Some((header, exit)), s->While_body@, 0)->Ok_0;
    let s5 = layout::closed_body(sb, left, header);
    let t = s5.switch_to(exit);
    assert(a3.grows_to(s2));
    meaning::grows_on(a3, s2, t);
    assert(a4.grows_to(s4));
    meaning::grows_on(a4, s4, t);
    meaning::contains_on(p, s3, t);
    meaning::contains_on(p, s5, t);
    meaning::contains_on(p, sb, s5);
    start_behind(p, a3, header, t);
    start_behind(p, a4, body_blk, t);
    assert(t.grows_to(t));
    start_behind(p, s5, exit, t);
}

/// One round of a loop with a condition, and those after it.
proof fn while_round(
    p: Prog,
    st: St,
    env: EnvView,
    exits: LoopExits,
    s: TypedStmt,
    sorts: Map<Seq<char>, Sort>,
    looped: bool,
    names: World,
    fuel: nat,
    m: Mach,
)
    requires
        st.binds(sorts),
        flow::core_stmt(s, sorts, looped),
        s is While,
        p.single(),
        p.contains(st.stmt(env, exits, s)->Ok_0.0),
        ({
            let (a0, header) = st.blk();
            let (a1, body_blk) = a0.blk();
            let (a2, exit) = a1.blk();
            m.pc == a2.jump(header).switch_to(header).code.len()
        }),
        meaning::agrees(st.vars, sorts, names, m.store),
        flow::while_flow(s->While_condition, s->While_body@, names, fuel) is Some,
    ensures
        ({
            let t = st.stmt(env, exits, s)->Ok_0.0;
            p.follows(
                m,
                flow::while_flow(s->While_condition, s->While_body@, names, fuel)->0,
                t.code.len(),
                false,
                exits,
                st.vars,
                sorts,
                t.vars,
                sorts,
            )
        }),
    decreases fuel, s, 0nat,
{
    while_starts(p, st, env, exits, s, sorts, looped);
    let condition = s->While_condition;
    let body = s->While_body@;
    let (a0, header) = st.blk();
    let (a1, body_blk) = a0.blk();
    let (a2, exit) = a1.blk();
    let s2 = a2.jump(header).switch_to(header);
    let (s3, cond) = s2.expr(env, condition)->Ok_0;
    let s4 = s3.brif(cond, body_blk, exit).switch_to(body_blk);
    let ex: LoopExits = Some((header, exit));
    let (sb, left) = s4.body(env, ex, body, 0)->Ok_0;
    let t = st.stmt(env, exits, s)->Ok_0.0;
    let pc = t.code.len();
    let end = truth_run(p, s2, env, condition, sorts, names, m);
    let e = branch_run(p, m, end, s3, 0, t, cond, body_blk, exit);
    if meaning::truth(condition, names)->0 {
        body_runs(p, s4, env, ex, body, 0, sorts, true, names, fuel, e);
        let f = flow::body_flow(body, 0, names, fuel)->0;
        let head = s2.code.len();
        body_then_jump(p, e, f, sb, left, header, head, false, ex, st.vars, sorts, st.vars);
        let out = flow::while_flow(condition, body, names, fuel)->0;
        match f {
            Flow::Next(after) | Flow::Continue(after) => {
                assert(p.arrives(e, head, st.vars, sorts, after)) by {
                    reveal(Prog::follows);
                }
                let e2 = choose|e2: Mach| #[trigger]
                    p.reaches(e, Event::Go(e2)) && e2.pc == head && meaning::agrees(
                        st.vars,
                        sorts,
                        after,
                        e2.store,
                    );
                while_round(p, st, env, exits, s, sorts, looped, after, (fuel - 1) as nat, e2);
                follows_on(p, e, e2, out, pc, false, exits, st.vars, sorts, t.vars, sorts);
            },
            Flow::Break(after) => {
                reveal(Prog::follows);
                arrives_less(p, e, pc, t.vars, sorts, st.vars, sorts, after);
            },
            Flow::Return(x) => {
                reveal(Prog::follows);
            },
        }
        follows_on(p, m, e, out, pc, false, exits, st.vars, sorts, t.vars, sorts);
    } else {
        reveal(Prog::follows);
        agrees_less(t.vars, sorts, st.vars, sorts, names, e.store);
        assert(p.arrives(m, pc, t.vars, sorts, names));
    }
}

proof fn while_runs(
    p: Prog,
    st: St,
    env: EnvView,
    exits: LoopExits,
    s: TypedStmt,
    sorts: Map<Seq<char>, Sort>,
    looped: bool,
    names: World,
    fuel: nat,
    m: Mach,
)
    requires
        p.stmt_at(st, env, exits, s, sorts, looped, names, fuel, m),
        s is While,
    ensures
        p.runs_stmt(st, env, exits, s, sorts, names, fuel, m),
    decreases fuel, s, 1nat,
{
    while_starts(p, st, env, exits, s, sorts, looped);
    let (a0, header) = st.blk();
    let (a1, body_blk) = a0.blk();
    let (a2, exit) = a1.blk();
    let t = st.stmt(env, exits, s)->Ok_0.0;
    machine::reach_step(p, m);
    let e = jump_run(p, m, m, a2, 3, t, header);
    while_round(p, st, env, exits, s, sorts, looped, names, fuel, e);
    let f = flow::stmt_flow(s, names, fuel)->0;
    follows_on(p, m, e, f, t.code.len(), false, exits, st.vars, sorts, t.vars, sorts);
}

/// Where the blocks of a counting loop start.
proof fn for_starts(
    p: Prog,
    st: St,
    env: EnvView,
    exits: LoopExits,
    s: TypedStmt,
    sorts: Map<Seq<char>, Sort>,
    looped: bool,
)
    requires
        st.binds(sorts),
        flow::core_stmt(s, sorts, looped),
        s is For,
        p.single(),
        p.contains(st.stmt(env, exits, s)->Ok_0.0),
    ensures
        ({
            let var = s->For_var@;
            let body = s->For_body@;
            let more = sorts.insert(var, Sort::Integer(ClTy::I64));
            let (d, counter) = st.declare(ClTy::I64);
            let (s1, from) = d.expr(env, s->start)->Ok_0;
            let a0 = s1.def_var(counter, from).bind(var, counter);
            let (a1, header) = a0.blk();
            let (a2, body_blk) = a1.blk();
            let (a3, incr) = a2.blk();
            let (a4, exit) = a3.blk();
            let a5 = a4.jump(header);
            let s2 = a5.switch_to(header);
            let (s3, cur) = s2.read_var(counter);
            let (s4, limit) = s3.expr(env, s->end)->Ok_0;
            let s5 = s4.test_index(cur, limit, body_blk, exit).switch_to(body_blk);
            let (sb, left) = s5.body(env, Some((incr, exit)), body, 0)->Ok_0;
            let s6 = layout::closed_body(sb, left, incr);
            let s7 = s6.switch_to(incr);
            let s8 = s7.advance(counter, header);
            let t = s8.switch_to(exit);
            &&& st.stmt(env, exits, s)->Ok_0 == (t, false)
            &&& d.binds(sorts)
            &&& d.expr(env, s->start) is Ok
            &&& p.contains(s1)
            &&& p.contains(a0)
            &&& counter.0 == st.code.len()
            &&& a5.grows_to(t)
            &&& a0.binds(more)
            &&& layout::same_vars(st.vars, a0.vars, sorts)
            &&& p.contains(s3)
            &&& s3.binds(sorts)
            &&& s3.vars == a0.vars
            &&& s3.expr(env, s->end) is Ok
            &&& p.contains(s4)
            &&& s4.test_index(cur, limit, body_blk, exit).grows_to(t)
            &&& s5.binds(more)
            &&& s5.vars == a0.vars
            &&& s5.body(env, Some((incr, exit)), body, 0) is Ok
            &&& p.contains(sb)
            &&& p.contains(s6)
            &&& p.contains(s8)
            &&& p.start(header) == s2.code.len()
            &&& p.start(body_blk) == s5.code.len()
            &&& p.start(incr) == s7.code.len()
            &&& p.start(exit) == t.code.len()
            &&& s7.val_ty(Val(counter.0)) == Some(ClTy::I64)
            &&& layout::same_vars(st.vars, t.vars, sorts)
        }),
{
    layout::for_shape(st, env, exits, s, sorts, looped);
    let var = s->For_var@;
    let body = s->For_body@;
    let more = sorts.insert(var, Sort::Integer(ClTy::I64));
    let (d, counter) = st.declare(ClTy::I64);
    let (s1, from) = d.expr(env, s->start)->Ok_0;
    let a0 = s1.def_var(counter, from).bind(var, counter);
    let (a1, header) = a0.blk();
    let (a2, body_blk) = a1.blk();
    let (a3, incr) = a2.blk();
    let (a4, exit) = a3.blk();
    let a5 = a4.jump(header);
    let s2 = a5.switch_to(header);
    let (s3, cur) = s2.read_var(counter);
    let (s4, limit) = s3.expr(env, s->end)->Ok_0;
    let s5 = s4.test_index(cur, limit, body_blk, exit).switch_to(body_blk);
    let (sb, left) = s5.body(env, Some((incr, exit)), body, 0)->Ok_0;
    let s6 = layout::closed_body(sb, left, incr);
    let s7 = s6.switch_to(incr);
    let s8 = s7.advance(counter, header);
    let t = s8.switch_to(exit);
    assert(a5.grows_to(s2));
    meaning::grows_on(a5, s2, t);
    let c = s4.test_index(cur, limit, body_blk, exit);
    assert(c.grows_to(s5));
    meaning::grows_on(c, s5, t);
    meaning::contains_on(p, a0, t);
    meaning::contains_on(p, s1, a0);
    meaning::contains_on(p, s3, t);
    meaning::contains_on(p, s4, t);
    meaning::contains_on(p, s6, t);
    meaning::contains_on(p, sb, s6);
    meaning::contains_on(p, s8, t);
    assert(more.contains_key(var));
    assert(t.code[counter.0 as int] == a0.code[counter.0 as int]);
    assert(t.code[counter.0 as int] == s7.code[counter.0 as int]);
    start_behind(p, a5, header, t);
    start_behind(p, c, body_blk, t);
    start_behind(p, s6, incr, t);
    assert(t.grows_to(t));
    start_behind(p, s8, exit, t);
}

/// The test at the head of a round of a counting loop.
proof fn for_test(
    p: Prog,
    s2: St,
    env: EnvView,
    limit_expr: TypedExpr,
    var: Seq<char>,
    counter: Var,
    body_blk: Blk,
    exit: Blk,
    sorts: Map<Seq<char>, Sort>,
    names: World,
    t: St,
    m: Mach,
) -> (e: Mach)
    requires
        ({
            let (s3, cur) = s2.read_var(counter);
            let (s4, limit) = s3.expr(env, limit_expr)->Ok_0;
            &&& s3.binds(sorts)
            &&& p.contains(s3)
            &&& s3.expr(env, limit_expr) is Ok
            &&& p.contains(s4)
            &&& s4.test_index(cur, limit, body_blk, exit).grows_to(t)
        }),
        meaning::integer_expr(limit_expr, sorts),
        p.contains(t),
        m.pc == s2.code.len(),
        m.store.contains_key(counter),
        m.store[counter] == names[var],
        meaning::agrees(s2.vars, sorts, names, m.store),
        meaning::meaning(limit_expr, names) is Some,
    ensures
        p.reaches(m, Event::Go(e)),
        e.store == m.store,
        names[var] < meaning::meaning(limit_expr, names)->0 ==> e.pc == p.start(body_blk),
        names[var] >= meaning::meaning(limit_expr, names)->0 ==> e.pc == p.start(exit),
{
    let (s3, cur) = s2.read_var(counter);
    let (s4, limit) = s3.expr(env, limit_expr)->Ok_0;
    let (c0, below) = s4.int_test(IntCc::SignedLessThan, cur, limit);
    let c1 = c0.brif(below, body_blk, exit);
    machine::reach_step(p, m);
    step_on(p, m, m, s3, Inst::UseVar { var: counter });
    let m1 = p.step(m)->Go_0;
    let m2 = value_run(p, s3, env, limit_expr, sorts, names, m1);
    machine::reach_on(p, m, m1, Event::Go(m2));
    assert(m2.vals.contains_key(cur.0 as nat));
    let at = s4.code.len() as int;
    assert(t.code[at] == c1.code[at]);
    step_on(
        p,
        m,
        m2,
        t,
        Inst::IntCompare { icc: IntCc::SignedLessThan, lhs: cur, rhs: limit },
    );
    let m3 = p.step(m2)->Go_0;
    assert(t.code[at + 1] == c1.code[at + 1]);
    step_on(p, m, m3, t, Inst::Brif { cond: below, then_blk: body_blk, else_blk: exit });
    p.step(m3)->Go_0
}

proof fn wrap_one()
    ensures
        machine::wrap(ClTy::I64, 1) == 1,
{
    assert(machine::modulus(ClTy::I64) == 0x1_0000_0000_0000_0000);
    assert(1int % 0x1_0000_0000_0000_0000 == 1) by (nonlinear_arith);
}

/// The step of a counting loop.
proof fn for_step(
    p: Prog,
    s7: St,
    var: Seq<char>,
    counter: Var,
    header: Blk,
    a0: St,
    more: Map<Seq<char>, Sort>,
    names: World,
    m: Mach,
) -> (e: Mach)
    requires
        a0.binds(more),
        a0.fits(),
        a0.vars[var] == counter,
        more.contains_key(var),
        more[var] == Sort::Integer(ClTy::I64),
        s7.tys.len() == s7.code.len(),
        p.contains(s7.advance(counter, header)),
        s7.val_ty(Val(counter.0)) == Some(ClTy::I64),
        m.pc == s7.code.len(),
        meaning::agrees(a0.vars, more, names, m.store),
    ensures
        p.reaches(m, Event::Go(e)),
        e.pc == p.start(header),
        meaning::agrees(
            a0.vars,
            more,
            names.insert(var, machine::wrap(ClTy::I64, names[var] + 1)),
            e.store,
        ),
{
    let (e1, cur) = s7.read_var(counter);
    let (e2, one) = e1.iconst(ClTy::I64, 1);
    let (e3, next) = e2.arith(Arith::Iadd, cur, one);
    let s8 = s7.advance(counter, header);
    let at = s7.code.len();
    machine::reach_step(p, m);
    step_on(p, m, m, s8, Inst::UseVar { var: counter });
    let m1 = p.step(m)->Go_0;
    step_on(p, m, m1, s8, Inst::Iconst { ty: ClTy::I64, imm: 1 });
    let m2 = p.step(m1)->Go_0;
    wrap_one();
    assert(p.insts[at as int] == s8.code[at as int]);
    assert(p.tys[cur.0 as int] == Some(ClTy::I64));
    step_on(
        p,
        m,
        m2,
        s8,
        Inst::Arith { op: Arith::Iadd, lhs: cur, rhs: one },
    );
    let m3 = p.step(m2)->Go_0;
    step_on(p, m, m3, s8, Inst::DefVar { var: counter, val: next });
    let m4 = p.step(m3)->Go_0;
    step_on(p, m, m4, s8, Inst::Jump { target: header });
    let x = machine::wrap(ClTy::I64, names[var] + 1);
    agrees_set(a0, var, more, names, m.store, x, x);
    p.step(m4)->Go_0
}

/// One round of a counting loop, and those after it.
proof fn for_round(
    p: Prog,
    st: St,
    env: EnvView,
    exits: LoopExits,
    s: TypedStmt,
    sorts: Map<Seq<char>, Sort>,
    looped: bool,
    names: World,
    fuel: nat,
    m: Mach,
)
    requires
        st.binds(sorts),
        flow::core_stmt(s, sorts, looped),
        s is For,
        p.single(),
        p.contains(st.stmt(env, exits, s)->Ok_0.0),
        ({
            let var = s->For_var@;
            let more = sorts.insert(var, Sort::Integer(ClTy::I64));
            let (d, counter) = st.declare(ClTy::I64);
            let (s1, from) = d.expr(env, s->start)->Ok_0;
            let a0 = s1.def_var(counter, from).bind(var, counter);
            let (a1, header) = a0.blk();
            let (a2, body_blk) = a1.blk();
            let (a3, incr) = a2.blk();
            let (a4, exit) = a3.blk();
            &&& m.pc == a4.jump(header).switch_to(header).code.len()
            &&& meaning::agrees(a0.vars, more, names, m.store)
        }),
        flow::for_flow(s->For_var@, s->end, s->For_body@, names, fuel) is Some,
    ensures
        ({
            let t = st.stmt(env, exits, s)->Ok_0.0;
            p.follows(
                m,
                flow::for_flow(s->For_var@, s->end, s->For_body@, names, fuel)->0,
                t.code.len(),
                false,
                exits,
                st.vars,
                sorts,
                t.vars,
                sorts,
            )
        }),
    decreases fuel, s, 0nat,
{
    for_starts(p, st, env, exits, s, sorts, looped);
    let var = s->For_var@;
    let body = s->For_body@;
    let more = sorts.insert(var, Sort::Integer(ClTy::I64));
    let (d, counter) = st.declare(ClTy::I64);
    let (s1, from) = d.expr(env, s->start)->Ok_0;
    let a0 = s1.def_var(counter, from).bind(var, counter);
    let (a1, header) = a0.blk();
    let (a2, body_blk) = a1.blk();
    let (a3, incr) = a2.blk();
    let (a4, exit) = a3.blk();
    let s2 = a4.jump(header).switch_to(header);
    let (s3, cur) = s2.read_var(counter);
    let (s4, limit) = s3.expr(env, s->end)->Ok_0;
    let s5 = s4.test_index(cur, limit, body_blk, exit).switch_to(body_blk);
    let ex: LoopExits = Some((incr, exit));
    let (sb, left) = s5.body(env, ex, body, 0)->Ok_0;
    let s7 = layout::closed_body(sb, left, incr).switch_to(incr);
    let t = st.stmt(env, exits, s)->Ok_0.0;
    let pc = t.code.len();
    let head = s2.code.len();
    assert(layout::same_sorts(sorts, more));
    assert(layout::same_vars(t.vars, a0.vars, sorts));
    assert(more.contains_key(var));
    agrees_less(s2.vars, sorts, a0.vars, more, names, m.store);
    let e = for_test(
        p,
        s2,
        env,
        s->end,
        var,
        counter,
        body_blk,
        exit,
        sorts,
        names,
        t,
        m,
    );
    let out = flow::for_flow(var, s->end, body, names, fuel)->0;
    if names[var] < meaning::meaning(s->end, names)->0 {
        body_runs(p, s5, env, ex, body, 0, more, true, names, fuel, e);
        let f = flow::body_flow(body, 0, names, fuel)->0;
        let step = s7.code.len();
        body_then_jump(p, e, f, sb, left, incr, step, false, ex, a0.vars, more, a0.vars);
        match f {
            Flow::Next(after) | Flow::Continue(after) => {
                assert(p.arrives(e, step, a0.vars, more, after)) by {
                    reveal(Prog::follows);
                }
                let e2 = choose|e2: Mach| #[trigger]
                    p.reaches(e, Event::Go(e2)) && e2.pc == step && meaning::agrees(
                        a0.vars,
                        more,
                        after,
                        e2.store,
                    );
                let e3 = for_step(p, s7, var, counter, header, a0, more, after, e2);
                machine::reach_on(p, e, e2, Event::Go(e3));
                let counted = after.insert(var, machine::wrap(ClTy::I64, after[var] + 1));
                for_round(p, st, env, exits, s, sorts, looped, counted, (fuel - 1) as nat, e3);
                follows_on(p, e, e3, out, pc, false, exits, st.vars, sorts, t.vars, sorts);
            },
            Flow::Break(after) => {
                reveal(Prog::follows);
                arrives_less(p, e, pc, t.vars, sorts, a0.vars, more, after);
            },
            Flow::Return(x) => {
                reveal(Prog::follows);
            },
        }
        follows_on(p, m, e, out, pc, false, exits, st.vars, sorts, t.vars, sorts);
    } else {
        reveal(Prog::follows);
        agrees_less(t.vars, sorts, a0.vars, more, names, e.store);
        assert(p.arrives(m, pc, t.vars, sorts, names));
    }
}

proof fn for_runs(
    p: Prog,
    st: St,
    env: EnvView,
    exits: LoopExits,
    s: TypedStmt,
    sorts: Map<Seq<char>, Sort>,
    looped: bool,
    names: World,
    fuel: nat,
    m: Mach,
)
    requires
        p.stmt_at(st, env, exits, s, sorts, looped, names, fuel, m),
        s is For,
    ensures
        p.runs_stmt(st, env, exits, s, sorts, names, fuel, m),
    decreases fuel, s, 1nat,
{
    for_starts(p, st, env, exits, s, sorts, looped);
    let var = s->For_var@;
    let body = s->For_body@;
    let more = sorts.insert(var, Sort::Integer(ClTy::I64));
    let (d, counter) = st.declare(ClTy::I64);
    let (s1, from) = d.expr(env, s->start)->Ok_0;
    let a0 = s1.def_var(counter, from).bind(var, counter);
    let (a1, header) = a0.blk();
    let (a2, body_blk) = a1.blk();
    let (a3, incr) = a2.blk();
    let (a4, exit) = a3.blk();
    let t = st.stmt(env, exits, s)->Ok_0.0;
    let x = meaning::meaning(s->start, names)->0;
    let e0 = for_start(p, st, env, s->start, var, counter, sorts, names, m);
    let e = jump_run(p, m, e0, a4, 4, t, header);
    let f = flow::stmt_flow(s, names, fuel)->0;
    for_round(p, st, env, exits, s, sorts, looped, names.insert(var, x), fuel, e);
    follows_on(p, m, e, f, t.code.len(), false, exits, st.vars, sorts, t.vars, sorts);
}

/// The start of a counting loop: the counter is declared and set.
proof fn for_start(
    p: Prog,
    st: St,
    env: EnvView,
    start: TypedExpr,
    var: Seq<char>,
    counter: Var,
    sorts: Map<Seq<char>, Sort>,
    names: World,
    m: Mach,
) -> (e: Mach)
    requires
        st.binds(sorts),
        meaning::integer_expr(start, sorts),
        flow::sort_of(start) == Sort::Integer(ClTy::I64),
        meaning::meaning(start, names) is Some,
        ({
            let d = st.declare(ClTy::I64).0;
            let (s1, from) = d.expr(env, start)->Ok_0;
            &&& d.expr(env, start) is Ok
            &&& p.contains(s1)
            &&& p.contains(s1.def_var(counter, from))
        }),
        counter.0 == st.code.len(),
        m.pc == st.code.len(),
        meaning::agrees(st.vars, sorts, names, m.store),
    ensures
        p.reaches(m, Event::Go(e)),
        e.pc == st.declare(ClTy::I64).0.expr(env, start)->Ok_0.0.code.len() + 1,
        meaning::agrees(
            st.vars.insert(var, counter),
            sorts.insert(var, Sort::Integer(ClTy::I64)),
            names.insert(var, meaning::meaning(start, names)->0),
            e.store,
        ),
{
    let d = st.declare(ClTy::I64).0;
    meaning::binds_on(st, d, sorts);
    layout::values_are_lowered(d, env, start, sorts);
    let (s1, from) = d.expr(env, start)->Ok_0;
    let a = s1.def_var(counter, from);
    let x = meaning::meaning(start, names)->0;
    machine::reach_step(p, m);
    assert(s1.code[st.code.len() as int] == d.code[st.code.len() as int]);
    step_on(p, m, m, s1, Inst::DeclareVar { ty: ClTy::I64 });
    let m1 = Mach { pc: m.pc + 1, ..m };
    assert(p.step(m) == Event::Go(m1));
    let m2 = value_run(p, d, env, start, sorts, names, m1);
    machine::reach_on(p, m, m1, Event::Go(m2));
    step_on(p, m, m2, a, Inst::DefVar { var: counter, val: from });
    let m3 = Mach { pc: m2.pc + 1, store: m2.store.insert(counter, m2.val(from)), ..m2 };
    assert(p.step(m2) == Event::Go(m3));
    agrees_new(st, var, counter, sorts, Sort::Integer(ClTy::I64), names, m.store, x, x);
    m3
}

/// The code of a statement does what the statement does.
pub proof fn stmt_runs(
    p: Prog,
    st: St,
    env: EnvView,
    exits: LoopExits,
    s: TypedStmt,
    sorts: Map<Seq<char>, Sort>,
    looped: bool,
    names: World,
    fuel: nat,
    m: Mach,
)
    requires
        p.stmt_at(st, env, exits, s, sorts, looped, names, fuel, m),
    ensures
        p.runs_stmt(st, env, exits, s, sorts, names, fuel, m),
    decreases fuel, s, 2nat,
{
    match s {
        TypedStmt::Let { expr, .. } => {
            if flow::builds(expr) {
                box_builds::let_built_runs(p, st, env, exits, s, sorts, looped, names, fuel, m);
            } else {
                let_runs(p, st, env, exits, s, sorts, looped, names, fuel, m);
            }
        },
        TypedStmt::Assign { target, .. } => {
            if target is Ident {
                assign_runs(p, st, env, exits, s, sorts, looped, names, fuel, m);
            } else {
                box_writes::write_runs(p, st, env, exits, s, sorts, looped, names, fuel, m);
            }
        },
        TypedStmt::Return { .. } => {
            return_runs(p, st, env, exits, s, sorts, looped, names, fuel, m);
        },
        TypedStmt::Break | TypedStmt::Continue => {
            jump_runs(p, st, env, exits, s, sorts, looped, names, fuel, m);
        },
        TypedStmt::If { else_body, .. } => {
            if else_body is Some {
                if_else_runs(p, st, env, exits, s, sorts, looped, names, fuel, m);
            } else {
                if_runs(p, st, env, exits, s, sorts, looped, names, fuel, m);
            }
        },
        TypedStmt::While { .. } => {
            while_runs(p, st, env, exits, s, sorts, looped, names, fuel, m);
        },
        TypedStmt::For { .. } => {
            for_runs(p, st, env, exits, s, sorts, looped, names, fuel, m);
        },
        TypedStmt::Match { .. } => {
            match_runs::match_runs(p, st, env, exits, s, sorts, looped, names, fuel, m);
        },
        _ => {
            box_stmts::handle_runs(p, st, env, exits, s, sorts, looped, names, fuel, m);
        },
    }
}

/// The code of statements does what the statements do.
pub proof fn body_runs(
    p: Prog,
    st: St,
    env: EnvView,
    exits: LoopExits,
    b: Seq<TypedStmt>,
    i: nat,
    sorts: Map<Seq<char>, Sort>,
    looped: bool,
    names: World,
    fuel: nat,
    m: Mach,
)
    requires
        p.body_at(st, env, exits, b, i, sorts, looped, names, fuel, m),
    ensures
        p.runs_body(st, env, exits, b, i, sorts, names, fuel, m),
    decreases fuel, b, b.len() - i,
{
    if i < b.len() {
        let s = b[i as int];
        body_step(p, st, env, exits, b, i, sorts, looped, names, fuel, m);
        stmt_runs(p, st, env, exits, s, sorts, looped, names, fuel, m);
        let (t1, left) = st.stmt(env, exits, s)->Ok_0;
        let (t, ends) = st.body(env, exits, b, i)->Ok_0;
        let more = flow::after(s, sorts);
        let f = flow::stmt_flow(s, names, fuel)->0;
        let out = flow::body_flow(b, i, names, fuel)->0;
        match f {
            Flow::Next(after) => {
                assert(!left && p.arrives(m, t1.code.len(), t1.vars, more, after)) by {
                    reveal(Prog::follows);
                }
                let e = choose|e: Mach| #[trigger]
                    p.reaches(m, Event::Go(e)) && e.pc == t1.code.len() && meaning::agrees(
                        t1.vars,
                        more,
                        after,
                        e.store,
                    );
                body_runs(p, t1, env, exits, b, i + 1, more, looped, after, fuel, e);
                rest_follows(p, st, t1, t, exits, sorts, more, m, e, out, ends);
            },
            _ => {
                reveal(Prog::follows);
            },
        }
    } else {
        reveal(Prog::follows);
        machine::reach_step(p, m);
        assert(p.arrives(m, st.code.len(), st.vars, sorts, names));
    }
}

/// The first of several statements can run, and leads to the others.
proof fn body_step(
    p: Prog,
    st: St,
    env: EnvView,
    exits: LoopExits,
    b: Seq<TypedStmt>,
    i: nat,
    sorts: Map<Seq<char>, Sort>,
    looped: bool,
    names: World,
    fuel: nat,
    m: Mach,
)
    requires
        p.body_at(st, env, exits, b, i, sorts, looped, names, fuel, m),
        i < b.len(),
    ensures
        ({
            let s = b[i as int];
            let more = flow::after(s, sorts);
            let (t1, left) = st.stmt(env, exits, s)->Ok_0;
            &&& p.stmt_at(st, env, exits, s, sorts, looped, names, fuel, m)
            &&& t1.binds(more)
            &&& layout::same_vars(st.vars, t1.vars, sorts)
            &&& layout::same_sorts(sorts, more)
            &&& !left ==> t1.body(env, exits, b, i + 1) is Ok
            &&& left ==> st.body(env, exits, b, i) == st.stmt(env, exits, s)
            &&& !left ==> st.body(env, exits, b, i) == t1.body(env, exits, b, i + 1)
        }),
{
    let s = b[i as int];
    layout::body_parts(st, env, exits, b, i, sorts, looped);
    let (t1, left) = st.stmt(env, exits, s)->Ok_0;
    if !left {
        meaning::contains_on(p, t1, st.body(env, exits, b, i)->Ok_0.0);
    }
    first_flows(b, i, names, fuel);
}

/// Where statements end, the first of them does.
proof fn first_flows(b: Seq<TypedStmt>, i: nat, names: World, fuel: nat)
    requires
        i < b.len(),
        flow::body_flow(b, i, names, fuel) is Some,
    ensures
        flow::stmt_flow(b[i as int], names, fuel) is Some,
{
}

/// The run of the other statements, seen from before the first.
proof fn rest_follows(
    p: Prog,
    st: St,
    t1: St,
    t: St,
    exits: LoopExits,
    sorts: Map<Seq<char>, Sort>,
    more: Map<Seq<char>, Sort>,
    m: Mach,
    e: Mach,
    f: Flow,
    left: bool,
)
    requires
        p.reaches(m, Event::Go(e)),
        p.follows(e, f, t.code.len(), left, exits, t1.vars, more, t1.vars, more),
        layout::same_vars(st.vars, t1.vars, sorts),
        layout::same_sorts(sorts, more),
    ensures
        p.follows(m, f, t.code.len(), left, exits, st.vars, sorts, st.vars, sorts),
{
    let pc = t.code.len();
    follows_on(p, m, e, f, pc, left, exits, t1.vars, more, t1.vars, more);
    follows_less(p, m, f, pc, left, exits, st.vars, sorts, t1.vars, more, t1.vars, more);
    reveal(Prog::follows);
    match f {
        Flow::Next(names) => {
            arrives_less(p, m, pc, st.vars, sorts, t1.vars, more, names);
        },
        _ => {},
    }
}

} // verus!
