//! That a compiled function on integers, truth values and boxes does what the
//! function does: it returns the same, leaves the same in memory, and makes the
//! same calls of the runtime.

use crate::codegen_cpu::compile;
use crate::codegen_cpu::flow;
use crate::codegen_cpu::flow::Flow;
use crate::codegen_cpu::inst::{Blk, Inst};
use crate::codegen_cpu::layout;
use crate::codegen_cpu::machine;
use crate::codegen_cpu::machine::{Answers, Cells, Done, Event, Heap, Mach, Prog, Store};
use crate::codegen_cpu::meaning;
use crate::codegen_cpu::meaning::{Sort, World};
use crate::codegen_cpu::running;
use crate::codegen_cpu::state;
use crate::codegen_cpu::state::{EnvView, Fail, St};
use crate::typed::{ResolvedTy, TypedFn, TypedParam};
use vstd::prelude::*;

verus! {

/// What a parameter stands for.
pub open spec fn param_sort(ty: ResolvedTy) -> Sort {
    match ty {
        ResolvedTy::Bool => Sort::Truth,
        _ => Sort::Integer(ty.whole()),
    }
}

/// What the first `n` parameters stand for.
pub open spec fn param_sorts(params: Seq<TypedParam>, n: nat) -> Map<Seq<char>, Sort>
    decreases n,
{
    if n == 0 {
        Map::empty()
    } else {
        param_sorts(params, (n - 1) as nat).insert(
            params[n - 1].name@,
            param_sort(params[n - 1].ty),
        )
    }
}

/// A program that has done nothing yet, with the values of the first `n`
/// parameters.
pub open spec fn param_names(
    params: Seq<TypedParam>,
    args: Seq<int>,
    cells: Cells,
    answers: Answers,
    n: nat,
) -> World
    decreases n,
{
    if n == 0 {
        World { names: Map::empty(), heap: Heap { cells, calls: Seq::empty(), answers } }
    } else {
        param_names(params, args, cells, answers, (n - 1) as nat).insert(params[n - 1].name@, args[n - 1])
    }
}

/// Parameters that are integers, truth values or handles, each with a name of
/// its own.
pub open spec fn core_params(params: Seq<TypedParam>) -> bool {
    &&& forall|i: int|
        0 <= i < params.len() ==> match (#[trigger] params[i]).ty {
            ResolvedTy::Bool => true,
            ty => ty.is_whole(),
        }
    &&& forall|i: int, j: int|
        0 <= i < j < params.len() ==> (#[trigger] params[i]).name@ != (#[trigger] params[j]).name@
}

/// Functions on integers, truth values and boxes.
pub open spec fn core_fn(f: TypedFn) -> bool {
    &&& core_params(f.params@)
    &&& flow::core_body(f.body@, 0, param_sorts(f.params@, f.params@.len()), false)
}

/// Arguments for such parameters.
pub open spec fn args_fit(params: Seq<TypedParam>, args: Seq<int>) -> bool {
    &&& args.len() == params.len()
    &&& forall|i: int|
        0 <= i < params.len() && (#[trigger] params[i]).ty is Bool ==> meaning::is_mask(args[i])
}

/// What a function leaves behind, if it ends.
pub open spec fn fn_result(
    f: TypedFn,
    args: Seq<int>,
    cells: Cells,
    answers: Answers,
    fuel: nat,
) -> Option<Done> {
    match flow::body_flow(
        f.body@,
        0,
        param_names(f.params@, args, cells, answers, f.params@.len()),
        fuel,
    ) {
        Some(Flow::Return(x)) => Some(x),
        Some(Flow::Next(after)) => Some(after.leaves(None)),
        _ => None,
    }
}

/// A compiled function with its arguments.
pub open spec fn prog_of(env: EnvView, f: TypedFn, args: Seq<int>) -> Prog {
    Prog {
        insts: compile::fn_plan(env, f)->Ok_0.code,
        tys: state::empty_state().function(env, f)->Ok_0.tys,
        args,
    }
}

/// A run that has not begun.
pub open spec fn at_entry(cells: Cells, answers: Answers) -> Mach {
    Mach {
        pc: 0,
        vals: Map::empty(),
        store: Store {
            vars: Map::empty(),
            passed: Seq::empty(),
            heap: Heap { cells, calls: Seq::empty(), answers },
        },
    }
}

proof fn param_is_new(params: Seq<TypedParam>, n: nat, i: int)
    requires
        core_params(params),
        n <= i < params.len(),
    ensures
        !param_sorts(params, n).contains_key(params[i].name@),
    decreases n,
{
    if n > 0 {
        param_is_new(params, (n - 1) as nat, i);
        assert(params[n - 1].name@ != params[i].name@);
    }
}

proof fn all_have_types(params: Seq<TypedParam>, n: nat)
    requires
        core_params(params),
        n <= params.len(),
    ensures
        compile::param_types(params, n).len() == n,
    decreases n,
{
    if n > 0 {
        all_have_types(params, (n - 1) as nat);
        assert(params[n - 1].ty.machine() is Some);
    }
}

/// The state behind the parameter at position `i`.
spec fn with_param(st: St, params: Seq<TypedParam>, i: nat) -> St {
    let ty = param_sort(params[i as int].ty).machine();
    let (s1, v) = st.val(Inst::Param { index: i as usize, ty });
    s1.bind_new(params[i as int].name@, ty, v)
}

proof fn param_lowered(st: St, params: Seq<TypedParam>, i: nat)
    requires
        core_params(params),
        i < params.len(),
        st.binds(param_sorts(params, i)),
    ensures
        st.bind_params(params, i) == with_param(st, params, i).bind_params(params, i + 1),
        st.grows_to(with_param(st, params, i)),
        st.owns_blocks(with_param(st, params, i)),
        with_param(st, params, i).binds(param_sorts(params, i + 1)),
{
    let sort = param_sort(params[i as int].ty);
    let ty = sort.machine();
    let name = params[i as int].name@;
    all_have_types(params, params.len());
    let (s1, v) = st.val(Inst::Param { index: i as usize, ty });
    let (s2, var) = s1.declare(ty);
    let t = with_param(st, params, i);
    assert(t == s2.def_var(var, v).bind(name, var));
    assert(st.grows_to(t));
    param_is_new(params, i, i as int);
    layout::binds_new(st, name, var, t, param_sorts(params, i), sort);
    assert(params[i as int].ty.machine() == Some(ty));
}

/// The code for parameters can be generated.
proof fn params_lowered(st: St, params: Seq<TypedParam>, i: nat)
    requires
        core_params(params),
        i <= params.len(),
        st.binds(param_sorts(params, i)),
    ensures
        match st.bind_params(params, i) {
            Err(_) => false,
            Ok(t) => {
                &&& st.grows_to(t)
                &&& st.owns_blocks(t)
                &&& t.binds(param_sorts(params, params.len()))
            },
        },
    decreases params.len() - i,
{
    if i < params.len() {
        param_lowered(st, params, i);
        let t1 = with_param(st, params, i);
        params_lowered(t1, params, i + 1);
        let t = t1.bind_params(params, i + 1)->Ok_0;
        meaning::grows_on(st, t1, t);
        meaning::owns_on(st, t1, t);
    }
}

/// The code for a parameter gives its name the argument.
proof fn param_runs(p: Prog, st: St, params: Seq<TypedParam>, i: nat, cells: Cells, answers: Answers, m: Mach) -> (e: Mach)
    requires
        core_params(params),
        args_fit(params, p.args),
        i < params.len(),
        i <= st.code.len(),
        st.binds(param_sorts(params, i)),
        p.contains(with_param(st, params, i)),
        m.pc == st.code.len(),
        meaning::agrees(
            st.vars,
            param_sorts(params, i),
            param_names(params, p.args, cells, answers, i),
            m.store,
        ),
    ensures
        p.reaches(m, Event::Go(e)),
        e.pc == with_param(st, params, i).code.len(),
        meaning::agrees(
            with_param(st, params, i).vars,
            param_sorts(params, i + 1),
            param_names(params, p.args, cells, answers, i + 1),
            e.store,
        ),
{
    let sort = param_sort(params[i as int].ty);
    let ty = sort.machine();
    let name = params[i as int].name@;
    let (s1, v) = st.val(Inst::Param { index: i as usize, ty });
    let (s2, var) = s1.declare(ty);
    let t = with_param(st, params, i);
    let x = p.args[i as int];
    machine::reach_step(p, m);
    running::step_on(p, m, m, t, Inst::Param { index: i as usize, ty });
    let m1 = Mach { pc: m.pc + 1, vals: m.vals.insert(m.pc, x), ..m };
    assert(p.step(m) == Event::Go(m1));
    running::step_on(p, m, m1, t, Inst::DeclareVar { ty });
    let m2 = Mach { pc: m1.pc + 1, ..m1 };
    assert(p.step(m1) == Event::Go(m2));
    running::step_on(p, m, m2, t, Inst::DefVar { var, val: v });
    let m3 = Mach { pc: m2.pc + 1, store: m.store.insert(var, x), ..m2 };
    assert(p.step(m2) == Event::Go(m3));
    running::agrees_new(
        st,
        name,
        var,
        param_sorts(params, i),
        sort,
        param_names(params, p.args, cells, answers, i),
        m.store,
        x,
        x,
    );
    m3
}

/// The code for parameters gives their names the arguments.
proof fn params_run(p: Prog, st: St, params: Seq<TypedParam>, i: nat, cells: Cells, answers: Answers, m: Mach) -> (e: Mach)
    requires
        core_params(params),
        args_fit(params, p.args),
        i <= params.len(),
        i <= st.code.len(),
        st.binds(param_sorts(params, i)),
        st.bind_params(params, i) is Ok,
        p.contains(st.bind_params(params, i)->Ok_0),
        m.pc == st.code.len(),
        meaning::agrees(
            st.vars,
            param_sorts(params, i),
            param_names(params, p.args, cells, answers, i),
            m.store,
        ),
    ensures
        p.reaches(m, Event::Go(e)),
        e.pc == st.bind_params(params, i)->Ok_0.code.len(),
        meaning::agrees(
            st.bind_params(params, i)->Ok_0.vars,
            param_sorts(params, params.len()),
            param_names(params, p.args, cells, answers, params.len()),
            e.store,
        ),
    decreases params.len() - i,
{
    if i < params.len() {
        param_lowered(st, params, i);
        let t1 = with_param(st, params, i);
        params_lowered(t1, params, i + 1);
        let t = t1.bind_params(params, i + 1)->Ok_0;
        meaning::contains_on(p, t1, t);
        let e1 = param_runs(p, st, params, i, cells, answers, m);
        let e = params_run(p, t1, params, i + 1, cells, answers, e1);
        machine::reach_on(p, m, e1, Event::Go(e));
        e
    } else {
        machine::reach_step(p, m);
        m
    }
}

/// Code that owns its blocks begins each of them once.
proof fn single_blocks(p: Prog, t: St)
    requires
        state::empty_state().owns_blocks(t),
        p.insts == t.code,
    ensures
        p.single(),
{
    assert forall|b: Blk, j: nat, k: nat| #[trigger] p.begins(b, j) && #[trigger] p.begins(b, k) implies j
        == k by {
        assert(t.code[j as int] is SwitchTo);
        assert(t.code[k as int] is SwitchTo);
    }
}

/// The code of a function can be generated.
proof fn function_lowered(env: EnvView, f: TypedFn)
    requires
        core_fn(f),
    ensures
        ({
            let sorts = param_sorts(f.params@, f.params@.len());
            let (s0, entry) = state::empty_state().blk();
            let s1 = s0.switch_to(entry);
            let s2 = s1.bind_params(f.params@, 0)->Ok_0;
            let (sb, left) = s2.body(env, None, f.body@, 0)->Ok_0;
            let t = if left {
                sb
            } else {
                sb.emit(Inst::ReturnVoid)
            };
            &&& s1.binds(param_sorts(f.params@, 0))
            &&& s1.bind_params(f.params@, 0) is Ok
            &&& s2.binds(sorts)
            &&& s2.body(env, None, f.body@, 0) is Ok
            &&& state::empty_state().function(env, f) == Ok::<St, Fail>(t)
            &&& s1.grows_to(s2)
            &&& s2.grows_to(sb)
            &&& sb.grows_to(t)
            &&& s2.grows_to(t)
            &&& s1.grows_to(t)
            &&& t.fits() ==> state::empty_state().owns_blocks(t)
        }),
{
    let st = state::empty_state();
    let sorts = param_sorts(f.params@, f.params@.len());
    let (s0, entry) = st.blk();
    let s1 = s0.switch_to(entry);
    assert(st.grows_to(s1));
    assert(st.owns_blocks(s1));
    params_lowered(s1, f.params@, 0);
    let s2 = s1.bind_params(f.params@, 0)->Ok_0;
    layout::binds_ready(s2, sorts);
    layout::body_lowered(s2, env, None, f.body@, 0, sorts, false);
    let (sb, left) = s2.body(env, None, f.body@, 0)->Ok_0;
    layout::extended_facts(s2, sb, sorts, sorts);
    let t = if left {
        sb
    } else {
        sb.emit(Inst::ReturnVoid)
    };
    assert(sb.grows_to(t));
    meaning::grows_on(s2, sb, t);
    meaning::grows_on(s1, s2, t);
    if t.fits() {
        meaning::grows_on(st, s1, s2);
        meaning::owns_on(st, s1, s2);
        meaning::grows_on(st, s2, sb);
        meaning::owns_on(st, s2, sb);
        assert(sb.owns_blocks(t));
        meaning::owns_on(st, sb, t);
    }
}

/// A function on integers, truth values and boxes is compiled, and wherever it
/// ends, its code, run on the same arguments and the same memory with the same
/// answers of the runtime, ends, returns the same, leaves the same in memory,
/// and makes the same calls in the same order.
pub proof fn functions_return_alike(
    env: EnvView,
    f: TypedFn,
    args: Seq<int>,
    cells: Cells,
    answers: Answers,
    fuel: nat,
)
    requires
        core_fn(f),
        args_fit(f.params@, args),
        fn_result(f, args, cells, answers, fuel) is Some,
    ensures
        compile::fn_plan(env, f) is Ok,
        compile::fn_plan(env, f)->Ok_0.code.len() <= usize::MAX ==> prog_of(env, f, args).reaches(
            at_entry(cells, answers),
            Event::Leave(fn_result(f, args, cells, answers, fuel)->0),
        ),
{
    function_lowered(env, f);
    let sorts = param_sorts(f.params@, f.params@.len());
    let names = param_names(f.params@, args, cells, answers, f.params@.len());
    let (s0, entry) = state::empty_state().blk();
    let s1 = s0.switch_to(entry);
    let s2 = s1.bind_params(f.params@, 0)->Ok_0;
    let (sb, left) = s2.body(env, None, f.body@, 0)->Ok_0;
    let t = state::empty_state().function(env, f)->Ok_0;
    let p = prog_of(env, f, args);
    if t.fits() {
        assert(p.contains(t));
        single_blocks(p, t);
        meaning::contains_on(p, s1, t);
        meaning::contains_on(p, s2, t);
        meaning::contains_on(p, sb, t);
        let m = at_entry(cells, answers);
        machine::reach_step(p, m);
        running::step_on(p, m, m, s1, Inst::Block);
        let m1 = Mach { pc: 1, ..m };
        assert(p.step(m) == Event::Go(m1));
        running::step_on(p, m, m1, s1, Inst::SwitchTo { target: entry });
        let m2 = Mach { pc: 2, ..m };
        assert(p.step(m1) == Event::Go(m2));
        let e = params_run(p, s1, f.params@, 0, cells, answers, m2);
        machine::reach_on(p, m, m2, Event::Go(e));
        running::body_runs(p, s2, env, None, f.body@, 0, sorts, false, names, fuel, e);
        body_returns(p, s2, env, f, sorts, names, fuel, m, e, t);
    }
}

/// Behind the parameters a function returns as its body does.
proof fn body_returns(
    p: Prog,
    s2: St,
    env: EnvView,
    f: TypedFn,
    sorts: Map<Seq<char>, Sort>,
    names: World,
    fuel: nat,
    m: Mach,
    e: Mach,
    t: St,
)
    requires
        p.reaches(m, Event::Go(e)),
        p.contains(t),
        p.runs_body(s2, env, None, f.body@, 0, sorts, names, fuel, e),
        !s2.body(env, None, f.body@, 0)->Ok_0.1 ==> t == s2.body(
            env,
            None,
            f.body@,
            0,
        )->Ok_0.0.emit(Inst::ReturnVoid),
    ensures
        match flow::body_flow(f.body@, 0, names, fuel)->0 {
            Flow::Return(x) => p.reaches(m, Event::Leave(x)),
            Flow::Next(after) => p.reaches(m, Event::Leave(after.leaves(None))),
            _ => false,
        },
{
    reveal(Prog::follows);
    let (sb, left) = s2.body(env, None, f.body@, 0)->Ok_0;
    match flow::body_flow(f.body@, 0, names, fuel)->0 {
        Flow::Return(x) => {
            machine::reach_on(p, m, e, Event::Leave(x));
        },
        Flow::Next(after) => {
            let e1 = choose|e1: Mach| #[trigger]
                p.reaches(e, Event::Go(e1)) && e1.pc == sb.code.len() && meaning::agrees(
                    s2.vars,
                    sorts,
                    after,
                    e1.store,
                );
            machine::reach_on(p, m, e, Event::Go(e1));
            running::step_on(p, m, e1, t, Inst::ReturnVoid);
        },
        _ => {},
    }
}

} // verus!
