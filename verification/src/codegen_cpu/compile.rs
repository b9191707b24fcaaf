//! Whole functions and programs.

use crate::codegen_cpu::inst::{cranelift_type, ClTy, Inst};
use crate::codegen_cpu::state;
use crate::codegen_cpu::state::{CodegenError, Env, EnvView, Fail, FnRef, FnTranslator, St};
use crate::runtime::tags::{BwdSlot, N_BWD_SLOTS};
use crate::text;
use crate::typed::{TypedFn, TypedParam, TypedProgram};
use vstd::hash_map::StringHashMap;
use vstd::prelude::*;

verus! {

/// A compiled function: its signature, its instructions and its texts.
#[derive(Debug)]
pub struct CompiledFn {
    pub name: String,
    pub params: Vec<ClTy>,
    pub ret: Option<ClTy>,
    pub code: Vec<Inst>,
    pub strs: Vec<String>,
}

/// Model of [`CompiledFn`].
pub struct FnPlan {
    pub name: Seq<char>,
    pub params: Seq<ClTy>,
    pub ret: Option<ClTy>,
    pub code: Seq<Inst>,
    pub strs: Seq<Seq<char>>,
}

impl View for CompiledFn {
    type V = FnPlan;

    open spec fn view(&self) -> FnPlan {
        FnPlan {
            name: self.name@,
            params: self.params@,
            ret: self.ret,
            code: self.code@,
            strs: text::texts(self.strs@),
        }
    }
}

/// A compiled program: its functions and the position of `main`.
#[derive(Debug)]
pub struct CompiledProgram {
    pub fns: Vec<CompiledFn>,
    pub main: usize,
}

pub open spec fn plans(fns: Seq<CompiledFn>) -> Seq<FnPlan> {
    fns.map_values(|f: CompiledFn| f@)
}

/// Machine types of the parameters that have a value.
pub open spec fn param_types(params: Seq<TypedParam>, n: nat) -> Seq<ClTy>
    decreases n,
{
    if n == 0 || n > params.len() {
        Seq::empty()
    } else {
        match params[n - 1].ty.machine() {
            Some(t) => param_types(params, (n - 1) as nat).push(t),
            None => param_types(params, (n - 1) as nat),
        }
    }
}

impl St {
    /// Binds the parameters from position `i` on to the arguments at the same
    /// positions; a value parameter behind a unit parameter has none.
    pub open spec fn bind_params(self, params: Seq<TypedParam>, i: nat) -> Result<St, Fail>
        decreases params.len() - i,
    {
        if i >= params.len() {
            Ok(self)
        } else {
            match params[i as int].ty.machine() {
                None => self.bind_params(params, i + 1),
                Some(t) => if i >= param_types(params, params.len()).len() {
                    Err(Fail::UnsupportedType("value parameter after a unit parameter"@))
                } else {
                    let (st, v) = self.val(Inst::Param { index: i as usize, ty: t });
                    st.bind_new(params[i as int].name@, t, v).bind_params(params, i + 1)
                },
            }
        }
    }

    /// A function: entry block, parameters, body, and a return where the body
    /// does not leave by itself.
    pub open spec fn function(self, env: EnvView, f: TypedFn) -> Result<St, Fail> {
        let (st, entry) = self.blk();
        match st.switch_to(entry).bind_params(f.params@, 0) {
            Err(x) => Err(x),
            Ok(st) => match st.body(env, None, f.body@, 0) {
                Err(x) => Err(x),
                Ok((st, true)) => Ok(st),
                Ok((st, false)) => Ok(st.emit(Inst::ReturnVoid)),
            },
        }
    }
}

/// The compiled form of a function.
pub open spec fn fn_plan(env: EnvView, f: TypedFn) -> Result<FnPlan, Fail> {
    match state::empty_state().function(env, f) {
        Err(x) => Err(x),
        Ok(st) => Ok(
            FnPlan {
                name: f.name@,
                params: param_types(f.params@, f.params@.len()),
                ret: f.return_ty.machine(),
                code: st.code,
                strs: st.strs,
            },
        ),
    }
}

/// Compiles the functions from position `i` on.
pub open spec fn fn_plans(env: EnvView, fns: Seq<TypedFn>, i: nat, done: Seq<FnPlan>) -> Result<
    Seq<FnPlan>,
    Fail,
>
    decreases fns.len() - i,
{
    if i >= fns.len() {
        Ok(done)
    } else {
        match fn_plan(env, fns[i as int]) {
            Err(x) => Err(x),
            Ok(p) => fn_plans(env, fns, i + 1, done.push(p)),
        }
    }
}

/// The first `n` functions by name.
pub open spec fn fn_table(fns: Seq<TypedFn>, n: nat) -> Map<Seq<char>, FnRef>
    decreases n,
{
    if n == 0 || n > fns.len() {
        Map::empty()
    } else {
        fn_table(fns, (n - 1) as nat).insert(
            fns[n - 1].name@,
            FnRef { index: (n - 1) as usize, ret: fns[n - 1].return_ty.machine() },
        )
    }
}

/// What names mean in a program.
pub open spec fn env_of(program: TypedProgram, kernels: Map<Seq<char>, u64>) -> EnvView {
    EnvView { kernels, fns: fn_table(program.fns@, program.fns@.len()) }
}

/// The compiled form of a program: every function, in order.
pub open spec fn program_plan(program: TypedProgram, kernels: Map<Seq<char>, u64>) -> Result<
    Seq<FnPlan>,
    Fail,
> {
    let env = env_of(program, kernels);
    if !env.fns.contains_key("main"@) {
        Err(Fail::NoMainFunction)
    } else {
        fn_plans(env, program.fns@, 0, Seq::empty())
    }
}

fn value_params(params: &Vec<TypedParam>) -> (r: Vec<ClTy>)
    ensures
        r@ == param_types(params@, params@.len()),
{
    let mut out: Vec<ClTy> = Vec::new();
    let mut i: usize = 0;
    while i < params.len()
        invariant
            i <= params.len(),
            out@ == param_types(params@, i as nat),
        decreases params.len() - i,
    {
        match cranelift_type(&params[i].ty) {
            Some(t) => out.push(t),
            None => {},
        }
        i = i + 1;
    }
    out
}

impl FnTranslator {
    fn bind_params(&mut self, params: &Vec<TypedParam>) -> (r: Result<(), CodegenError>)
        ensures
            state::completes(r, final(self)@, old(self)@.bind_params(params@, 0)),
    {
        let n: usize = value_params(params).len();
        let mut i: usize = 0;
        while i < params.len()
            invariant
                i <= params.len(),
                n == param_types(params@, params@.len()).len(),
                old(self)@.bind_params(params@, 0) == self@.bind_params(params@, i as nat),
            decreases params.len() - i,
        {
            match cranelift_type(&params[i].ty) {
                None => {},
                Some(t) => {
                    if i >= n {
                        return Err(
                            CodegenError::UnsupportedType(
                                "value parameter after a unit parameter".to_string(),
                            ),
                        );
                    }
                    let v = self.val(Inst::Param { index: i, ty: t });
                    self.bind_new(&params[i].name, t, v);
                },
            }
            i = i + 1;
        }
        Ok(())
    }

    fn lower_function(&mut self, env: &Env, f: &TypedFn) -> (r: Result<(), CodegenError>)
        ensures
            state::completes(r, final(self)@, old(self)@.function(env@, *f)),
    {
        let entry = self.blk();
        self.switch_to(entry);
        match self.bind_params(&f.params) {
            Err(x) => {
                return Err(x);
            },
            Ok(_) => {},
        }
        match self.lower_body(env, None, &f.body) {
            Err(x) => Err(x),
            Ok(left) => {
                if !left {
                    self.emit(Inst::ReturnVoid);
                }
                Ok(())
            },
        }
    }
}

/// Compiles one function.
pub fn compile_fn(env: &Env, f: &TypedFn) -> (r: Result<CompiledFn, CodegenError>)
    ensures
        match r {
            Ok(c) => fn_plan(env@, *f) == Ok::<FnPlan, Fail>(c@),
            Err(e) => fn_plan(env@, *f) == Err::<FnPlan, Fail>(e@),
        },
{
    let mut t = FnTranslator::new();
    match t.lower_function(env, f) {
        Err(x) => Err(x),
        Ok(_) => Ok(
            CompiledFn {
                name: f.name.clone(),
                params: value_params(&f.params),
                ret: cranelift_type(&f.return_ty),
                code: t.code,
                strs: t.strs,
            },
        ),
    }
}

fn build_fn_table(fns: &Vec<TypedFn>) -> (r: StringHashMap<FnRef>)
    ensures
        r@ == fn_table(fns@, fns@.len()),
{
    let mut table: StringHashMap<FnRef> = StringHashMap::new();
    let mut i: usize = 0;
    while i < fns.len()
        invariant
            i <= fns.len(),
            table@ == fn_table(fns@, i as nat),
        decreases fns.len() - i,
    {
        table.insert(
            fns[i].name.clone(),
            FnRef { index: i, ret: cranelift_type(&fns[i].return_ty) },
        );
        i = i + 1;
    }
    table
}

/// Compiles a program: every function in order, given the kernels' numbers.
/// Fails with the first function that cannot be compiled.
pub fn compile_program(program: &TypedProgram, kernel_ids: &StringHashMap<u64>) -> (r: Result<
    CompiledProgram,
    CodegenError,
>)
    ensures
        match r {
            Ok(c) => {
                &&& program_plan(*program, kernel_ids@) == Ok::<Seq<FnPlan>, Fail>(plans(c.fns@))
                &&& c.main == env_of(*program, kernel_ids@).fns["main"@].index
            },
            Err(e) => program_plan(*program, kernel_ids@) == Err::<Seq<FnPlan>, Fail>(e@),
        },
{
    let env = Env { kernels: kernel_ids, fns: build_fn_table(&program.fns) };
    let main: usize = match env.fns.get("main") {
        Some(f) => f.index,
        None => {
            return Err(CodegenError::NoMainFunction);
        },
    };
    let mut out: Vec<CompiledFn> = Vec::new();
    let mut i: usize = 0;
    proof {
        assert(plans(out@) =~= Seq::<FnPlan>::empty());
    }
    while i < program.fns.len()
        invariant
            i <= program.fns.len(),
            env@ == env_of(*program, kernel_ids@),
            env@.fns.contains_key("main"@),
            program_plan(*program, kernel_ids@) == fn_plans(
                env@,
                program.fns@,
                i as nat,
                plans(out@),
            ),
        decreases program.fns.len() - i,
    {
        let ghost before = out@;
        match compile_fn(&env, &program.fns[i]) {
            Err(x) => {
                return Err(x);
            },
            Ok(c) => {
                out.push(c);
                proof {
                    assert(plans(before.push(c)) =~= plans(before).push(c@));
                }
            },
        }
        i = i + 1;
    }
    Ok(CompiledProgram { fns: out, main })
}

/// Position of the last function with a name.
pub open spec fn fn_index(fns: Seq<TypedFn>, name: Seq<char>) -> Option<usize> {
    let table = fn_table(fns, fns.len());
    if table.contains_key(name) {
        Some(table[name].index)
    } else {
        None
    }
}

/// Whether a program holds every backward function.
pub open spec fn has_backward(fns: Seq<TypedFn>) -> bool {
    forall|s: BwdSlot| fn_index(fns, #[trigger] s.fn_text()) is Some
}

/// Finds the function that fills each slot of the backward table. Fails with
/// a slot whose function the program lacks.
pub fn backward_slots(program: &TypedProgram) -> (r: Result<Vec<usize>, BwdSlot>)
    ensures
        match r {
            Ok(v) => {
                &&& v@.len() == N_BWD_SLOTS
                &&& forall|s: BwdSlot|
                    fn_index(program.fns@, #[trigger] s.fn_text()) == Some(v@[s.tag()])
            },
            Err(s) => {
                &&& fn_index(program.fns@, s.fn_text()) is None
                &&& forall|t: BwdSlot|
                    t.tag() < s.tag() ==> fn_index(program.fns@, #[trigger] t.fn_text()) is Some
            },
        },
        r is Ok <==> has_backward(program.fns@),
{
    let table = build_fn_table(&program.fns);
    let mut out: Vec<usize> = Vec::new();
    let mut i: i32 = 0;
    while i < 30
        invariant
            0 <= i <= 30,
            out@.len() == i,
            table@ == fn_table(program.fns@, program.fns@.len()),
            forall|s: BwdSlot|
                s.tag() < i ==> fn_index(program.fns@, #[trigger] s.fn_text()) == Some(
                    out@[s.tag()],
                ),
        decreases 30 - i,
    {
        let slot = BwdSlot::from_tag(i);
        match table.get(slot.fn_name()) {
            Some(f) => out.push(f.index),
            None => {
                return Err(slot);
            },
        }
        proof {
            assert forall|s: BwdSlot| s.tag() < i + 1 implies fn_index(
                program.fns@,
                #[trigger] s.fn_text(),
            ) == Some(out@[s.tag()]) by {
                if s.tag() == i {
                    crate::runtime::tags::bwd_slots_distinct(s, slot);
                } else {
                    crate::runtime::tags::bwd_slots_distinct(s, s);
                }
            }
        }
        i = i + 1;
    }
    proof {
        assert forall|s: BwdSlot| fn_index(program.fns@, #[trigger] s.fn_text()) == Some(
            out@[s.tag()],
        ) by {
            crate::runtime::tags::bwd_slots_distinct(s, s);
        }
    }
    Ok(out)
}

} // verus!
