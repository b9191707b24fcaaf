//! What the code of calls that go to the runtime does: built-in functions,
//! properties and elements of tensors, printing, and kernels.

use crate::codegen_cpu::builtins::Builtin;
use crate::codegen_cpu::inst::{Callee, ClTy, Convert, Inst, StackSlot, Val};
use crate::codegen_cpu::machine;
use crate::codegen_cpu::state;
use crate::codegen_cpu::state::{EnvView, St};
use crate::codegen_cpu::straight;
use crate::codegen_cpu::straight::{asked, Around, Deed, Line};
use crate::codegen_cpu::symbols::RtSym;
use crate::codegen_cpu::training_runs;
use crate::codegen_cpu::training_runs::{begins, does, Stack};
use crate::runtime::tags::OpTag;
use crate::typed::{ResolvedTy, ScalarTy, TypedExpr, TypedStmt, UnaryOp};
use vstd::prelude::*;

verus! {

/// The runtime function that a built-in function is, how many arguments it has,
/// and whether it has a result.
pub open spec fn runtime_of(b: Builtin) -> Option<(RtSym, nat, bool)> {
    match b {
        Builtin::CausalMask => Some((RtSym::TensorCausalMask, 1, true)),
        Builtin::Backward => Some((RtSym::Backward, 1, false)),
        Builtin::TensorPrint => Some((RtSym::TensorPrint, 1, false)),
        Builtin::ReadFile => Some((RtSym::ReadFile, 1, true)),
        Builtin::StrLen => Some((RtSym::StrLen, 1, true)),
        Builtin::StrCharAt => Some((RtSym::StrCharAt, 2, true)),
        Builtin::StrFromChar => Some((RtSym::StrFromChar, 1, true)),
        Builtin::RandUniform => Some((RtSym::RandUniform, 0, true)),
        Builtin::RandInt => Some((RtSym::RandInt, 1, true)),
        Builtin::RecordDiff => Some((RtSym::RecordDiff, 1, false)),
        Builtin::BufferI32 => Some((RtSym::BufferI32, 1, true)),
        Builtin::Freeze => Some((RtSym::BufferFreezeI32, 1, true)),
        _ => None,
    }
}

proof fn zero_given(l: Line, around: Around, st: St) -> (e: Line)
    requires
        st.tys.len() == st.code.len(),
        st.code.len() < usize::MAX,
    ensures
        ({
            let (t, v) = st.iconst(ClTy::I64, 0);
            &&& l.leads(around, st, t, e)
            &&& e == (Line { vals: l.vals.insert(st.code.len(), 0), ..l })
            &&& e.has(v)
            &&& e.val(v) == 0
        }),
{
    let inst = Inst::Iconst { ty: ClTy::I64, imm: 0 };
    assert(st.emit(inst).code[st.code.len() as int] == inst);
    straight::leads_value(l, around, st, inst, 0)
}

/// A built-in function that the runtime has asks it, with its arguments in
/// order, and gives the answer; one without a result gives zero.
pub proof fn builtins_ask_the_runtime(
    l: Line,
    around: Around,
    st: St,
    env: EnvView,
    b: Builtin,
    args: Seq<TypedExpr>,
    grad: bool,
) -> (e: Line)
    requires
        runtime_of(b) is Some,
        st.list(env, args, 0, (runtime_of(b)->0).1, Seq::empty()) is Ok,
        ({
            let (s1, vs) = st.list(env, args, 0, (runtime_of(b)->0).1, Seq::empty())->Ok_0;
            begins(l, s1, vs)
        }),
    ensures
        st.builtin_call(env, b, args, grad) is Ok,
        ({
            let (sym, n, result) = runtime_of(b)->0;
            let (s1, vs) = st.list(env, args, 0, n, Seq::empty())->Ok_0;
            let (t, v) = st.builtin_call(env, b, args, grad)->Ok_0;
            let deeds = l.deeds.push(asked(sym, l.all(vs), l.stack));
            does(
                l,
                around,
                s1,
                t,
                v,
                e,
                if result {
                    (around.answer)(deeds)
                } else {
                    0
                },
                deeds,
            )
        }),
{
    let (sym, n, result) = runtime_of(b)->0;
    let (s1, vs) = st.list(env, args, 0, n, Seq::empty())->Ok_0;
    let m = straight::leads_call(l, around, s1, Callee::Runtime(sym), vs);
    assert(st.rt_args(env, sym, args, n) == Ok::<(St, Val), state::Fail>(s1.rt(sym, vs)));
    if result {
        m
    } else {
        let s2 = s1.rt(sym, vs).0;
        assert(st.unit_call(env, sym, args) == Ok::<(St, Val), state::Fail>(
            s2.iconst(ClTy::I64, 0),
        ));
        let e = zero_given(m, around, s2);
        straight::leads_on(l, around, s1, s2, m, s2.iconst(ClTy::I64, 0).0, e);
        e
    }
}

/// `variable` gives its argument, with one more reference, registered as a
/// leaf; `len` gives the length in front of the elements of a list.
pub proof fn variables_are_registered(
    l: Line,
    around: Around,
    st: St,
    env: EnvView,
    args: Seq<TypedExpr>,
    grad: bool,
) -> (ends: (Line, Line))
    requires
        st.list(env, args, 0, 1, Seq::empty()) is Ok,
        ({
            let (s1, vs) = st.list(env, args, 0, 1, Seq::empty())->Ok_0;
            begins(l, s1, vs)
        }),
    ensures
        ({
            let (s1, vs) = st.list(env, args, 0, 1, Seq::empty())->Ok_0;
            let h = l.val(vs[0]);
            let r = st.builtin_call(env, Builtin::Variable, args, grad);
            let n = st.builtin_call(env, Builtin::Len, args, grad);
            &&& r is Ok
            &&& n is Ok
            &&& does(
                l,
                around,
                s1,
                r->Ok_0.0,
                r->Ok_0.1,
                ends.0,
                h,
                l.deeds.push(asked(RtSym::TensorRetain, seq![h], l.stack)).push(
                    asked(RtSym::TapeRegisterLeaf, seq![h], l.stack),
                ),
            )
            &&& does(
                l,
                around,
                s1,
                n->Ok_0.0,
                n->Ok_0.1,
                ends.1,
                (around.memory)(l.deeds, h + 8),
                l.deeds,
            )
        }),
{
    let (s1, vs) = st.list(env, args, 0, 1, Seq::empty())->Ok_0;
    training_runs::list_len(st, env, args, 0, 1, Seq::empty());
    let x = seq![vs[0]];
    assert(vs =~= x);
    assert(l.has(vs[0]) && vs[0].0 < s1.code.len());
    let h = l.val(vs[0]);
    assert(l.all(x) =~= seq![h]);
    let m = straight::leads_call(l, around, s1, Callee::Runtime(RtSym::TensorRetain), x);
    let s2 = s1.rt(RtSym::TensorRetain, x).0;
    training_runs::values_stay(l, around, s1, s2, m, x);
    assert(m.has(x[0]) && m.val(x[0]) == h);
    assert(m.all(x) =~= seq![h]);
    let e = straight::leads_call(m, around, s2, Callee::Runtime(RtSym::TapeRegisterLeaf), x);
    let s3 = s2.rt(RtSym::TapeRegisterLeaf, x).0;
    straight::leads_on(l, around, s1, s2, m, s3, e);
    training_runs::values_stay(l, around, s1, s3, e, x);
    assert(e.has(x[0]) && e.val(x[0]) == h);
    let k = training_runs::loaded(l, around, s1, vs[0], 8);
    (e, k)
}

/// The runtime function that prints a value of a type.
pub open spec fn printer(ty: ResolvedTy) -> Option<RtSym> {
    match ty {
        ResolvedTy::Tensor { .. } => Some(RtSym::TensorPrint),
        ResolvedTy::Scalar(s) => if s.is_float() {
            Some(RtSym::PrintF32)
        } else {
            Some(RtSym::PrintI64)
        },
        ResolvedTy::Bool => Some(RtSym::PrintBool),
        ResolvedTy::Str => Some(RtSym::PrintStr),
        _ => None,
    }
}

/// A value is printed by the function for its type, and is the number that is
/// printed. Types without such a function are refused.
pub proof fn values_are_printed(l: Line, around: Around, st: St, v: Val, ty: ResolvedTy) -> (e: Line)
    requires
        begins(l, st, seq![v]),
    ensures
        match st.print_typed(v, ty) {
            Ok(t) => {
                &&& printer(ty) is Some
                &&& l.leads(around, st, t, e)
                &&& e.deeds == l.deeds.push(asked(printer(ty)->0, seq![l.val(v)], l.stack))
                &&& e.vars == l.vars
                &&& e.passed.len() == 0
            },
            Err(_) => printer(ty) is None,
        },
{
    let vs = seq![v];
    assert(l.has(vs[0]) && vs[0].0 < st.code.len());
    assert(l.all(vs) =~= seq![l.val(v)]);
    match printer(ty) {
        None => l,
        Some(sym) => {
            let widened = ty is Scalar && !ty->Scalar_0.is_float() && ty->Scalar_0.machine()
                != ClTy::I64;
            if widened {
                let inst = Inst::Convert { conv: Convert::Sextend64, val: v };
                let (s1, w) = st.convert(Convert::Sextend64, v);
                assert(s1.code[st.code.len() as int] == inst);
                let m = straight::leads_value(l, around, st, inst, l.val(v));
                let ws = seq![w];
                assert(m.all(ws) =~= seq![l.val(v)]);
                let e = straight::leads_call(m, around, s1, Callee::Runtime(sym), ws);
                straight::leads_on(l, around, st, s1, m, s1.rt(sym, ws).0, e);
                e
            } else {
                straight::leads_call(l, around, st, Callee::Runtime(sym), vs)
            }
        },
    }
}

/// A text is printed: the runtime gets the address of the entry that holds it.
pub proof fn texts_are_printed(l: Line, around: Around, st: St, words: Seq<char>) -> (e: Line)
    requires
        begins(l, st, seq![]),
        st.strs.len() < usize::MAX,
    ensures
        ({
            let t = st.print_text(words);
            let entry = st.strs.len();
            &&& t.strs.len() == entry + 1
            &&& t.strs[entry as int] == words
            &&& e.deeds == l.deeds.push(
                asked(RtSym::PrintCstr, seq![(around.text)(entry)], l.stack),
            )
            &&& l.leads(around, st, t, e)
            &&& e.passed.len() == 0
        }),
{
    let entry = st.strs.len();
    let s0 = St { strs: st.strs.push(words), ..st };
    let inst = Inst::CstrAddr { entry: entry as usize };
    let (s1, p) = s0.val(inst);
    assert(s1.code[st.code.len() as int] == inst);
    let m = straight::leads_value(l, around, s0, inst, (around.text)(entry));
    let vs = seq![p];
    assert(m.all(vs) =~= seq![(around.text)(entry)]);
    let e = straight::leads_call(m, around, s1, Callee::Runtime(RtSym::PrintCstr), vs);
    let t = s1.rt(RtSym::PrintCstr, vs).0;
    straight::leads_on(l, around, s0, s1, m, t, e);
    assert(l.leads(around, st, t, e)) by {
        assert(st.grows_to(t)) by {
            assert forall|i: int| 0 <= i < st.code.len() implies #[trigger] t.code[i] == st.code[i]
                && t.tys[i] == st.tys[i] by {
                assert(t.code[i] == s0.code[i]);
            }
        }
    }
    passed_keeps_texts(s1, vs, 0);
    e
}

proof fn passed_keeps_texts(st: St, vs: Seq<Val>, i: nat)
    ensures
        st.pass_args(vs, i).strs == st.strs,
    decreases vs.len() - i,
{
    if i < vs.len() {
        passed_keeps_texts(st.emit(Inst::Arg { val: vs[i as int] }), vs, i + 1);
    }
}

/// What a property of a tensor is: its number of elements, its number of
/// dimensions and its gradient are asked of the runtime; its data is the tensor
/// itself.
pub proof fn tensor_properties_are_asked(
    l: Line,
    around: Around,
    st: St,
    env: EnvView,
    base: TypedExpr,
    field: Seq<char>,
    ty: ResolvedTy,
) -> (e: Line)
    requires
        base.ty is Tensor,
        field == "len"@ || field == "ndim"@ || field == "data"@ || field == "grad"@,
        st.expr(env, base) is Ok,
        ({
            let (s1, h) = st.expr(env, base)->Ok_0;
            begins(l, s1, seq![h])
        }),
    ensures
        st.field_access(env, base, field, ty) is Ok,
        ({
            let (s1, h) = st.expr(env, base)->Ok_0;
            let (t, v) = st.field_access(env, base, field, ty)->Ok_0;
            let sym = if field == "len"@ {
                RtSym::TensorLen
            } else if field == "ndim"@ {
                RtSym::TensorNdim
            } else {
                RtSym::TapeGetGrad
            };
            let deeds = l.deeds.push(asked(sym, seq![l.val(h)], l.stack));
            if field == "data"@ {
                does(l, around, s1, t, v, e, l.val(h), l.deeds)
            } else {
                does(l, around, s1, t, v, e, (around.answer)(deeds), deeds)
            }
        }),
{
    reveal_strlit("len");
    reveal_strlit("ndim");
    reveal_strlit("data");
    reveal_strlit("grad");
    reveal_strlit("shape");
    reveal_strlit("strides");
    assert("len"@.len() == 3 && "ndim"@.len() == 4 && "data"@.len() == 4 && "grad"@.len() == 4);
    assert("shape"@.len() == 5 && "strides"@.len() == 7);
    assert("ndim"@[0] != "data"@[0] && "ndim"@[0] != "grad"@[0] && "data"@[0] != "grad"@[0]);
    let (s1, h) = st.expr(env, base)->Ok_0;
    let vs = seq![h];
    assert(l.has(vs[0]));
    assert(l.all(vs) =~= seq![l.val(h)]);
    if field == "data"@ {
        straight::leads_nowhere(l, around, s1);
        l
    } else if field == "len"@ {
        straight::leads_call(l, around, s1, Callee::Runtime(RtSym::TensorLen), vs)
    } else if field == "ndim"@ {
        straight::leads_call(l, around, s1, Callee::Runtime(RtSym::TensorNdim), vs)
    } else {
        straight::leads_call(l, around, s1, Callee::Runtime(RtSym::TapeGetGrad), vs)
    }
}

/// Whether an entry of eight bytes on the stack holds a number.
pub open spec fn holds_entry(stack: Stack, slot: nat, i: int, x: int) -> bool {
    stack.contains_key((slot, 8 * i)) && stack[(slot, 8 * i)] == x
}

/// Whether the stack holds a row of numbers, eight bytes each.
pub open spec fn holds_row(stack: Stack, slot: nat, xs: Seq<int>) -> bool {
    forall|i: int| 0 <= i < xs.len() ==> #[trigger] holds_entry(stack, slot, i, xs[i])
}

proof fn row_grows(stack: Stack, slot: nat, xs: Seq<int>, x: int)
    requires
        holds_row(stack, slot, xs),
    ensures
        holds_row(stack.insert((slot, 8 * xs.len() as int), x), slot, xs.push(x)),
{
    let more = stack.insert((slot, 8 * xs.len() as int), x);
    let ys = xs.push(x);
    assert forall|i: int| 0 <= i < ys.len() implies #[trigger] holds_entry(more, slot, i, ys[i]) by {
        if i < xs.len() {
            assert(holds_entry(stack, slot, i, xs[i]));
        }
    }
}

/// Handles are stored on the stack one behind the other.
proof fn spilled(l: Line, around: Around, st: St, slot: StackSlot, vs: Seq<Val>, i: nat) -> (e: Line)
    requires
        st.tys.len() == st.code.len(),
        l.has_all(vs),
        i <= vs.len() < 0x1000_0000,
        holds_row(l.stack, slot.0 as nat, l.all(vs).take(i as int)),
    ensures
        l.leads(around, st, st.spill_handles(slot, vs, i), e),
        holds_row(e.stack, slot.0 as nat, l.all(vs)),
        e == (Line { stack: e.stack, ..l }),
        st.spill_handles(slot, vs, i).code.len() == st.code.len() + vs.len() - i,
        forall|q: (nat, int)|
            q.0 != slot.0 && l.stack.contains_key(q) ==> #[trigger] e.stack.contains_key(q)
                && e.stack[q] == l.stack[q],
    decreases vs.len() - i,
{
    if i < vs.len() {
        let offset = state::slot_offset(0, i);
        assert(offset == 8 * i);
        let inst = Inst::StackStore { val: vs[i as int], slot, offset };
        let t = st.emit(inst);
        assert(t.code[st.code.len() as int] == inst);
        assert(l.has(vs[i as int]));
        straight::leads_step(l, around, st, inst);
        let m = Line {
            stack: l.stack.insert((slot.0 as nat, 8 * i as int), l.val(vs[i as int])),
            ..l
        };
        assert(m.all(vs) =~= l.all(vs));
        assert forall|j: int| 0 <= j < vs.len() implies m.has(#[trigger] vs[j]) by {
            assert(l.has(vs[j]));
        }
        let xs = l.all(vs).take(i as int);
        row_grows(l.stack, slot.0 as nat, xs, l.val(vs[i as int]));
        assert(m.all(vs).take((i + 1) as int) =~= xs.push(l.val(vs[i as int])));
        let e = spilled(m, around, t, slot, vs, i + 1);
        straight::leads_on(l, around, st, t, m, st.spill_handles(slot, vs, i), e);
        e
    } else {
        assert(l.all(vs).take(i as int) =~= l.all(vs));
        straight::leads_nowhere(l, around, st);
        l
    }
}

/// Whether a deed calls a kernel on some tensors: its number, and the tensors
/// in order on the stack, as many as it says.
pub open spec fn launches(around: Around, d: Deed, id: u64, xs: Seq<int>) -> bool {
    exists|slot: nat|
        #![trigger (around.slot)(slot)]
        ({
            &&& d matches Deed::Call { callee, args, stack }
            &&& callee == Callee::Runtime(RtSym::KernelDispatch)
            &&& args == seq![
                machine::wrap(ClTy::I64, id as i64 as int),
                (around.slot)(slot),
                xs.len() as int,
            ]
            &&& holds_row(stack, slot, xs)
        })
}

/// A kernel is called by its number on the handles that it is given, in order,
/// and its result is the answer. A kernel that is not known is refused.
#[verifier::spinoff_prover]
#[verifier::rlimit(40)]
pub proof fn kernels_get_their_tensors(
    l: Line,
    around: Around,
    st: St,
    env: EnvView,
    name: Seq<char>,
    vs: Seq<Val>,
) -> (e: Line)
    requires
        begins(l, st, vs),
        vs.len() < 100,
        st.code.len() + 200 <= usize::MAX,
    ensures
        match st.dispatch_handles(env, name, vs) {
            Ok((t, v)) => {
                &&& env.kernels.contains_key(name)
                &&& e.deeds.len() == l.deeds.len() + 1
                &&& e.deeds.drop_last() == l.deeds
                &&& launches(around, e.deeds.last(), env.kernels[name], l.all(vs))
                &&& does(l, around, st, t, v, e, (around.answer)(e.deeds), e.deeds)
                &&& t.code.len() == st.code.len() + vs.len() + 8
                &&& v.0 == t.code.len() - 1
            },
            Err(_) => !env.kernels.contains_key(name),
        },
{
    if env.kernels.contains_key(name) {
        let id = env.kernels[name];
        let size = state::stack_size(8, vs.len());
        let inst = Inst::Slot { size, align: 3 };
        let (s1, slot) = st.slot(size, 3);
        assert(s1.code[st.code.len() as int] == inst);
        straight::leads_step(l, around, st, inst);
        assert(l.all(vs).take(0) =~= Seq::<int>::empty());
        let m1 = spilled(l, around, s1, slot, vs, 0);
        let s2 = s1.spill_handles(slot, vs, 0);
        straight::leads_on(l, around, st, s1, l, s2, m1);
        let e = dispatched(m1, around, s2, id, slot, vs.len());
        let t = s2.dispatch_slot(id, slot, vs.len()).0;
        straight::leads_on(l, around, st, s2, m1, t, e);
        let xs = l.all(vs);
        let sl = slot.0 as nat;
        assert(launches(around, e.deeds.last(), id, xs)) by {
            assert((around.slot)(sl) == (around.slot)(sl));
        }
        assert(e.deeds.drop_last() =~= l.deeds);
        e
    } else {
        l
    }
}

proof fn dispatched(l: Line, around: Around, st: St, id: u64, slot: StackSlot, n: nat) -> (e: Line)
    requires
        st.tys.len() == st.code.len(),
        st.code.len() + 50 <= usize::MAX,
        l.passed.len() == 0,
        n < 100,
    ensures
        ({
            let (t, v) = st.dispatch_slot(id, slot, n);
            let deeds = l.deeds.push(
                asked(
                    RtSym::KernelDispatch,
                    seq![
                        machine::wrap(ClTy::I64, id as i64 as int),
                        (around.slot)(slot.0 as nat),
                        n as int,
                    ],
                    l.stack,
                ),
            );
            &&& does(l, around, st, t, v, e, (around.answer)(deeds), deeds)
            &&& t.code.len() == st.code.len() + 7
            &&& v.0 == t.code.len() - 1
        }),
{
    let i1 = Inst::Iconst { ty: ClTy::I64, imm: id as i64 };
    let (s1, a) = st.val(i1);
    assert(s1.code[st.code.len() as int] == i1);
    let m1 = straight::leads_value(
        l,
        around,
        st,
        i1,
        machine::wrap(ClTy::I64, id as i64 as int),
    );
    let i2 = Inst::StackAddr { slot };
    let (s2, b) = s1.stack_addr(slot);
    assert(s2.code[s1.code.len() as int] == i2);
    let m2 = straight::leads_value(m1, around, s1, i2, (around.slot)(slot.0 as nat));
    straight::leads_on(l, around, st, s1, m1, s2, m2);
    let (s3, c) = s2.iconst(ClTy::Ptr, n as int);
    let m3 = training_runs::constant(m2, around, s2, ClTy::Ptr, n as int);
    straight::leads_on(l, around, st, s2, m2, s3, m3);
    let vs = seq![a, b, c];
    assert(m3.all(vs) =~= seq![
        machine::wrap(ClTy::I64, id as i64 as int),
        (around.slot)(slot.0 as nat),
        n as int,
    ]);
    let e = straight::leads_call(m3, around, s3, Callee::Runtime(RtSym::KernelDispatch), vs);
    straight::leads_on(l, around, st, s3, m3, s3.rt(RtSym::KernelDispatch, vs).0, e);
    e
}

/// Whether a deed makes a tensor of one element: its type, the address of its
/// shape, which is one, its rank, and the address of the element.
pub open spec fn makes_number(around: Around, d: Deed, x: int) -> bool {
    exists|data: nat, shape: nat|
        #![trigger (around.slot)(data), (around.slot)(shape)]
        ({
            &&& d matches Deed::Call { callee, args, stack }
            &&& callee == Callee::Runtime(RtSym::TensorAllocGpu)
            &&& args == seq![
                ScalarTy::F32.code() as int,
                (around.slot)(shape),
                1,
                (around.slot)(data),
            ]
            &&& stack.contains_key((shape, 0))
            &&& stack[(shape, 0)] == 1
            &&& stack.contains_key((data, 0))
            &&& stack[(data, 0)] == x
            &&& data != shape
        })
}

/// A number becomes a tensor with that one element.
#[verifier::spinoff_prover]
#[verifier::rlimit(40)]
pub proof fn numbers_become_tensors(l: Line, around: Around, st: St, f: Val) -> (e: Line)
    requires
        begins(l, st, seq![f]),
    ensures
        ({
            let (t, v) = st.scalar_tensor(f);
            &&& e.deeds.len() == l.deeds.len() + 1
            &&& e.deeds.drop_last() == l.deeds
            &&& makes_number(around, e.deeds.last(), l.val(f))
            &&& does(l, around, st, t, v, e, (around.answer)(e.deeds), e.deeds)
            &&& t.code.len() == st.code.len() + 14
            &&& v.0 == t.code.len() - 1
        }),
{
    let fs = seq![f];
    assert(l.has(fs[0]) && fs[0].0 < st.code.len());
    let i1 = Inst::Slot { size: 4, align: 2 };
    let (s1, data) = st.slot(4, 2);
    assert(s1.code[st.code.len() as int] == i1);
    straight::leads_step(l, around, st, i1);
    let i2 = Inst::StackStore { val: f, slot: data, offset: 0 };
    let s2 = s1.stack_store(f, data, 0);
    assert(s2.code[s1.code.len() as int] == i2);
    straight::leads_step(l, around, s1, i2);
    let d = data.0 as nat;
    let m2 = Line { stack: l.stack.insert((d, 0), l.val(f)), ..l };
    straight::leads_on(l, around, st, s1, l, s2, m2);
    let i3 = Inst::Slot { size: 8, align: 3 };
    let (s3, shape) = s2.slot(8, 3);
    assert(s3.code[s2.code.len() as int] == i3);
    straight::leads_step(m2, around, s2, i3);
    straight::leads_on(l, around, st, s2, m2, s3, m2);
    let (s4, one) = s3.iconst(ClTy::I64, 1);
    let m4 = training_runs::constant(m2, around, s3, ClTy::I64, 1);
    straight::leads_on(l, around, st, s3, m2, s4, m4);
    let i5 = Inst::StackStore { val: one, slot: shape, offset: 0 };
    let s5 = s4.stack_store(one, shape, 0);
    assert(s5.code[s4.code.len() as int] == i5);
    straight::leads_step(m4, around, s4, i5);
    let h = shape.0 as nat;
    let m5 = Line { stack: m4.stack.insert((h, 0), 1), ..m4 };
    straight::leads_on(l, around, st, s4, m4, s5, m5);
    let e = allocated(m5, around, s5, data, shape);
    let t = st.scalar_tensor(f).0;
    straight::leads_on(l, around, st, s5, m5, t, e);
    assert(e.deeds.drop_last() =~= l.deeds);
    assert(makes_number(around, e.deeds.last(), l.val(f))) by {
        assert((around.slot)(d) == (around.slot)(d) && (around.slot)(h) == (around.slot)(h));
    }
    e
}

proof fn allocated(l: Line, around: Around, st: St, data: StackSlot, shape: StackSlot) -> (e: Line)
    requires
        st.tys.len() == st.code.len(),
        st.code.len() + 20 <= usize::MAX,
        l.passed.len() == 0,
    ensures
        ({
            let (s1, a) = st.stack_addr(data);
            let (s2, b) = s1.stack_addr(shape);
            let (s3, c) = s2.iconst(ClTy::I32, 0);
            let (s4, d) = s3.iconst(ClTy::Ptr, 1);
            let (t, v) = s4.rt(RtSym::TensorAllocGpu, seq![c, b, d, a]);
            let deeds = l.deeds.push(
                asked(
                    RtSym::TensorAllocGpu,
                    seq![
                        0,
                        (around.slot)(shape.0 as nat),
                        1,
                        (around.slot)(data.0 as nat),
                    ],
                    l.stack,
                ),
            );
            &&& does(l, around, st, t, v, e, (around.answer)(deeds), deeds)
            &&& t.code.len() == st.code.len() + 9
            &&& v.0 == t.code.len() - 1
        }),
{
    let i1 = Inst::StackAddr { slot: data };
    let (s1, a) = st.stack_addr(data);
    assert(s1.code[st.code.len() as int] == i1);
    let m1 = straight::leads_value(l, around, st, i1, (around.slot)(data.0 as nat));
    let i2 = Inst::StackAddr { slot: shape };
    let (s2, b) = s1.stack_addr(shape);
    assert(s2.code[s1.code.len() as int] == i2);
    let m2 = straight::leads_value(m1, around, s1, i2, (around.slot)(shape.0 as nat));
    straight::leads_on(l, around, st, s1, m1, s2, m2);
    let (s3, c) = s2.iconst(ClTy::I32, 0);
    let m3 = training_runs::constant(m2, around, s2, ClTy::I32, 0);
    straight::leads_on(l, around, st, s2, m2, s3, m3);
    let (s4, d) = s3.iconst(ClTy::Ptr, 1);
    let m4 = training_runs::constant(m3, around, s3, ClTy::Ptr, 1);
    straight::leads_on(l, around, st, s3, m3, s4, m4);
    let vs = seq![c, b, d, a];
    assert(m4.all(vs) =~= seq![
        0,
        (around.slot)(shape.0 as nat),
        1,
        (around.slot)(data.0 as nat),
    ]);
    let e = straight::leads_call(m4, around, s4, Callee::Runtime(RtSym::TensorAllocGpu), vs);
    straight::leads_on(l, around, st, s4, m4, s4.rt(RtSym::TensorAllocGpu, vs).0, e);
    e
}

/// The negative of a tensor: minus one becomes a tensor, the kernel that
/// multiplies by a number gets the operand and that tensor, in this order, and
/// that tensor is freed. Where the operand takes part in gradients, the tape is
/// told of a negation of the operand.
#[verifier::spinoff_prover]
#[verifier::rlimit(60)]
pub proof fn negatives_are_products_with_minus_one(
    l: Line,
    around: Around,
    st: St,
    env: EnvView,
    x: TypedExpr,
) -> (e: Line)
    requires
        x.ty is Tensor,
        st.expr(env, x) is Ok,
        st.unary(env, UnaryOp::Neg, x) is Ok,
        ({
            let (s1, h) = st.expr(env, x)->Ok_0;
            begins(l, s1, seq![h]) && s1.code.len() + 400 <= usize::MAX
        }),
    ensures
        ({
            let (s1, h) = st.expr(env, x)->Ok_0;
            let (t, v) = st.unary(env, UnaryOp::Neg, x)->Ok_0;
            let n = l.deeds.len() as int;
            let k = "malus_mul_scalar"@;
            let minus_one = (around.answer)(e.deeds.take(n + 1));
            let out = (around.answer)(e.deeds.take(n + 2));
            &&& l.leads(around, s1, t, e)
            &&& e.has(v)
            &&& e.val(v) == out
            &&& e.deeds.len() == n + if x.grad_tracked {
                4int
            } else {
                3int
            }
            &&& e.deeds.take(n) == l.deeds
            &&& makes_number(around, e.deeds[n], (around.bits)(0xbf80_0000))
            &&& launches(around, e.deeds[n + 1], env.kernels[k], seq![l.val(h), minus_one])
            &&& is_call(e.deeds[n + 2], RtSym::TensorFree, seq![minus_one])
            &&& x.grad_tracked ==> is_call(
                e.deeds[n + 3],
                RtSym::TapeRecordUnary,
                seq![OpTag::Neg.tag(), l.val(h), out],
            )
        }),
{
    let (s1, h) = st.expr(env, x)->Ok_0;
    let hs = seq![h];
    assert(l.has(hs[0]) && hs[0].0 < s1.code.len());
    let k = "malus_mul_scalar"@;
    let i1 = Inst::F32Const { bits: 0xbf80_0000 };
    let (s2, f) = s1.val(i1);
    assert(s2.code[s1.code.len() as int] == i1);
    let m1 = straight::leads_value(l, around, s1, i1, (around.bits)(0xbf80_0000));
    let m2 = numbers_become_tensors(m1, around, s2, f);
    let (s3, s) = s2.scalar_tensor(f);
    straight::leads_on(l, around, s1, s2, m1, s3, m2);
    training_runs::values_stay(l, around, s1, s3, m2, hs);
    assert(m2.has(hs[0]) && m2.val(hs[0]) == l.val(h));
    let vs = seq![h, s];
    let m3 = kernels_get_their_tensors(m2, around, s3, env, k, vs);
    let (s4, out) = s3.dispatch_handles(env, k, vs)->Ok_0;
    straight::leads_on(l, around, s1, s3, m2, s4, m3);
    training_runs::values_stay(m2, around, s3, s4, m3, vs);
    assert(m3.has(vs[0]) && m3.val(vs[0]) == l.val(h));
    assert(m3.has(vs[1]) && m3.val(vs[1]) == m2.val(s));
    assert(m2.all(vs) =~= seq![l.val(h), m2.val(s)]);
    let ss = seq![s];
    assert(m3.all(ss) =~= seq![m2.val(s)]);
    let m4 = straight::leads_call(m3, around, s4, Callee::Runtime(RtSym::TensorFree), ss);
    let s5 = s4.rt(RtSym::TensorFree, ss).0;
    straight::leads_on(l, around, s1, s4, m3, s5, m4);
    let os = seq![h, out];
    assert(m3.has_all(os));
    training_runs::values_stay(m3, around, s4, s5, m4, os);
    assert(m4.has(os[0]) && m4.val(os[0]) == l.val(h));
    assert(m4.has(os[1]) && m4.val(os[1]) == m3.val(out));
    let n = l.deeds.len() as int;
    let e = if x.grad_tracked {
        let tag = OpTag::Neg.tag();
        let e = training_runs::told(m4, around, s5, RtSym::TapeRecordUnary, tag, os);
        let (s6, kk) = s5.iconst(ClTy::I32, tag);
        assert(seq![kk] + os =~= seq![kk, h, out]);
        let t = s6.rt(RtSym::TapeRecordUnary, seq![kk] + os).0;
        straight::leads_on(l, around, s1, s5, m4, t, e);
        training_runs::values_stay(m4, around, s5, t, e, os);
        assert(e.has(os[1]) && e.val(os[1]) == m3.val(out));
        assert(seq![tag] + m4.all(os) =~= seq![tag, l.val(h), m3.val(out)]);
        e
    } else {
        m4
    };
    assert(e.deeds.take(n) =~= l.deeds);
    assert(e.deeds.take(n + 1) =~= m2.deeds);
    assert(e.deeds.take(n + 2) =~= m3.deeds);
    assert(e.deeds[n] == m2.deeds.last());
    assert(e.deeds[n + 1] == m3.deeds.last());
    e
}

/// Whether a deed asks the runtime for something.
pub open spec fn is_call(d: Deed, sym: RtSym, want: Seq<int>) -> bool {
    &&& d matches Deed::Call { callee, args, stack }
    &&& callee == Callee::Runtime(sym)
    &&& args == want
}

/// An operator between a tensor and a number: the number becomes a tensor, the
/// kernel for the operator and that side gets the tensor and the number's
/// tensor, in this order, and the number's tensor is freed. The result is the
/// kernel's.
#[verifier::spinoff_prover]
#[verifier::rlimit(60)]
pub proof fn numbers_meet_tensors(
    l: Line,
    around: Around,
    st: St,
    env: EnvView,
    name: Seq<char>,
    x: Val,
    f: Val,
) -> (e: Line)
    requires
        begins(l, st, seq![x, f]),
        st.code.len() + 400 <= usize::MAX,
        env.kernels.contains_key(name),
    ensures
        ({
            let (s1, s) = st.scalar_tensor(f);
            let r = s1.dispatch_handles(env, name, seq![x, s]);
            let (s2, out) = r->Ok_0;
            let t = s2.rt(RtSym::TensorFree, seq![s]).0;
            let n = l.deeds.len() as int;
            let number = (around.answer)(e.deeds.take(n + 1));
            &&& r is Ok
            &&& l.leads(around, st, t, e)
            &&& e.has(out)
            &&& e.val(out) == (around.answer)(e.deeds.take(n + 2))
            &&& e.deeds.len() == n + 3
            &&& e.deeds.take(n) == l.deeds
            &&& makes_number(around, e.deeds[n], l.val(f))
            &&& launches(around, e.deeds[n + 1], env.kernels[name], seq![l.val(x), number])
            &&& is_call(e.deeds[n + 2], RtSym::TensorFree, seq![number])
        }),
{
    let hs = seq![x, f];
    assert(l.has(hs[0]) && l.has(hs[1]) && hs[0].0 < st.code.len() && hs[1].0 < st.code.len());
    let m2 = numbers_become_tensors(l, around, st, f);
    let (s1, s) = st.scalar_tensor(f);
    training_runs::values_stay(l, around, st, s1, m2, hs);
    assert(m2.has(hs[0]) && m2.val(hs[0]) == l.val(x));
    let vs = seq![x, s];
    let m3 = kernels_get_their_tensors(m2, around, s1, env, name, vs);
    let (s2, out) = s1.dispatch_handles(env, name, vs)->Ok_0;
    straight::leads_on(l, around, st, s1, m2, s2, m3);
    training_runs::values_stay(m2, around, s1, s2, m3, vs);
    assert(m3.has(vs[1]) && m3.val(vs[1]) == m2.val(s));
    assert(m2.all(vs) =~= seq![l.val(x), m2.val(s)]);
    let ss = seq![s];
    assert(m3.all(ss) =~= seq![m2.val(s)]);
    let e = straight::leads_call(m3, around, s2, Callee::Runtime(RtSym::TensorFree), ss);
    let t = s2.rt(RtSym::TensorFree, ss).0;
    straight::leads_on(l, around, st, s2, m3, t, e);
    let n = l.deeds.len() as int;
    assert(e.deeds.take(n) =~= l.deeds);
    assert(e.deeds.take(n + 1) =~= m2.deeds);
    assert(e.deeds.take(n + 2) =~= m3.deeds);
    assert(e.deeds[n] == m2.deeds.last());
    assert(e.deeds[n + 1] == m3.deeds.last());
    e
}

/// An operator between a tensor and a floating-point number is lowered to its
/// operands, tensor first, and then to what [`numbers_meet_tensors`] says, with
/// the kernel for the operator and the side of the number.
pub proof fn broadcasts_are_lowered(st: St, env: EnvView, e: TypedExpr, right: bool)
    requires
        e.kind is BinOp,
        ({
            let scalar = if right {
                *e.kind->BinOp_rhs
            } else {
                *e.kind->BinOp_lhs
            };
            scalar.ty is Scalar && scalar.ty->Scalar_0.is_float()
        }),
        st.scalar_broadcast(env, e, right) is Ok,
    ensures
        ({
            let op = e.kind->BinOp_op;
            let (tensor, scalar) = if right {
                (*e.kind->BinOp_lhs, *e.kind->BinOp_rhs)
            } else {
                (*e.kind->BinOp_rhs, *e.kind->BinOp_lhs)
            };
            let name = op.scalar_broadcast_kernel(right);
            let (s1, x) = st.expr(env, tensor)->Ok_0;
            let (s2, f) = s1.expr(env, scalar)->Ok_0;
            let (s3, s) = s2.scalar_tensor(f);
            let (s4, out) = s3.dispatch_handles(env, name->0, seq![x, s])->Ok_0;
            &&& name is Some
            &&& st.scalar_broadcast(env, e, right)->Ok_0 == (
                s4.rt(RtSym::TensorFree, seq![s]).0,
                out,
            )
        }),
{
}

/// A launch hands over the number of the kernel, its tensors and how many they
/// are, the grid before the size of a group, the shape and the rank of the
/// output, its element type, and the scalars and their size.
#[verifier::spinoff_prover]
#[verifier::rlimit(60)]
pub proof fn launches_hand_over_in_order(
    l: Line,
    around: Around,
    st: St,
    id: u64,
    handles: StackSlot,
    n: nat,
    grid: StackSlot,
    group: StackSlot,
    out_ptr: Val,
    out_rank: Val,
    dt: Val,
    uni_ptr: Val,
    uni_size: Val,
) -> (e: Line)
    requires
        begins(l, st, seq![out_ptr, out_rank, dt, uni_ptr, uni_size]),
        n < 100,
    ensures
        ({
            let (t, v) = st.launch(
                id,
                handles,
                n,
                grid,
                group,
                out_ptr,
                out_rank,
                dt,
                uni_ptr,
                uni_size,
            );
            let deeds = l.deeds.push(
                asked(
                    RtSym::KernelDispatchV2,
                    seq![
                        machine::wrap(ClTy::I64, id as i64 as int),
                        (around.slot)(handles.0 as nat),
                        n as int,
                        (around.slot)(grid.0 as nat),
                        (around.slot)(group.0 as nat),
                        l.val(out_ptr),
                        l.val(out_rank),
                        l.val(dt),
                        l.val(uni_ptr),
                        l.val(uni_size),
                    ],
                    l.stack,
                ),
            );
            does(l, around, st, t, v, e, (around.answer)(deeds), deeds)
        }),
{
    let ws = seq![out_ptr, out_rank, dt, uni_ptr, uni_size];
    assert(l.has(ws[0]) && l.has(ws[1]) && l.has(ws[2]) && l.has(ws[3]) && l.has(ws[4]));
    assert(ws[0].0 < st.code.len() && ws[1].0 < st.code.len() && ws[2].0 < st.code.len() && ws[3].0
        < st.code.len() && ws[4].0 < st.code.len());
    let i1 = Inst::Iconst { ty: ClTy::I64, imm: id as i64 };
    let (s1, a) = st.val(i1);
    assert(s1.code[st.code.len() as int] == i1);
    let m1 = straight::leads_value(
        l,
        around,
        st,
        i1,
        machine::wrap(ClTy::I64, id as i64 as int),
    );
    let (s2, b) = s1.stack_addr(handles);
    let m2 = addressed(m1, around, s1, handles);
    straight::leads_on(l, around, st, s1, m1, s2, m2);
    let (s3, c) = s2.iconst(ClTy::Ptr, n as int);
    let m3 = training_runs::constant(m2, around, s2, ClTy::Ptr, n as int);
    straight::leads_on(l, around, st, s2, m2, s3, m3);
    let (s4, g) = s3.stack_addr(grid);
    let m4 = addressed(m3, around, s3, grid);
    straight::leads_on(l, around, st, s3, m3, s4, m4);
    let (s5, h) = s4.stack_addr(group);
    let m5 = addressed(m4, around, s4, group);
    straight::leads_on(l, around, st, s4, m4, s5, m5);
    let vs = seq![a, b, c, g, h, out_ptr, out_rank, dt, uni_ptr, uni_size];
    assert(m5.has_all(vs));
    assert(m5.all(vs) =~= seq![
        machine::wrap(ClTy::I64, id as i64 as int),
        (around.slot)(handles.0 as nat),
        n as int,
        (around.slot)(grid.0 as nat),
        (around.slot)(group.0 as nat),
        l.val(out_ptr),
        l.val(out_rank),
        l.val(dt),
        l.val(uni_ptr),
        l.val(uni_size),
    ]);
    let e = straight::leads_call(m5, around, s5, Callee::Runtime(RtSym::KernelDispatchV2), vs);
    straight::leads_on(l, around, st, s5, m5, s5.rt(RtSym::KernelDispatchV2, vs).0, e);
    e
}

/// The address of a stack slot.
proof fn addressed(l: Line, around: Around, st: St, slot: StackSlot) -> (e: Line)
    requires
        st.tys.len() == st.code.len(),
        st.code.len() < usize::MAX,
    ensures
        l.leads(around, st, st.stack_addr(slot).0, e),
        e == (Line { vals: l.vals.insert(st.code.len(), (around.slot)(slot.0 as nat)), ..l }),
        st.stack_addr(slot).0.code.len() == st.code.len() + 1,
        st.stack_addr(slot).1.0 == st.code.len(),
{
    let inst = Inst::StackAddr { slot };
    assert(st.emit(inst).code[st.code.len() as int] == inst);
    straight::leads_value(l, around, st, inst, (around.slot)(slot.0 as nat))
}

/// A reshape or a reordering of dimensions asks the runtime with the tensor and
/// the dimensions, and is recorded as what it is: a reshape with the tensor and
/// the result, a reordering with the dimensions too.
pub proof fn shapes_are_changed_by_the_runtime(
    l: Line,
    around: Around,
    st: St,
    x: Val,
    dims: Val,
    n: Val,
    reshape: bool,
    grad: bool,
) -> (e: Line)
    requires
        begins(l, st, seq![x, dims, n]),
    ensures
        ({
            let sym = if reshape {
                RtSym::TensorReshape
            } else {
                RtSym::TensorPermute
            };
            let (s1, out) = st.rt(sym, seq![x, dims, n]);
            let t = if !grad {
                s1
            } else if reshape {
                s1.record_unary(crate::codegen_cpu::builtins::OPTAG_RESHAPE, x, out)
            } else {
                s1.record_perm(x, out, dims, n)
            };
            let deeds = l.deeds.push(
                asked(sym, seq![l.val(x), l.val(dims), l.val(n)], l.stack),
            );
            let y = (around.answer)(deeds);
            does(
                l,
                around,
                st,
                t,
                out,
                e,
                y,
                if !grad {
                    deeds
                } else if reshape {
                    deeds.push(
                        asked(
                            RtSym::TapeRecordUnary,
                            seq![OpTag::Reshape.tag(), l.val(x), y],
                            l.stack,
                        ),
                    )
                } else {
                    deeds.push(
                        asked(
                            RtSym::TapeRecordPerm,
                            seq![OpTag::Transpose.tag(), l.val(x), y, l.val(dims), l.val(n)],
                            l.stack,
                        ),
                    )
                },
            )
        }),
{
    let sym = if reshape {
        RtSym::TensorReshape
    } else {
        RtSym::TensorPermute
    };
    let vs = seq![x, dims, n];
    assert(l.has(vs[0]) && l.has(vs[1]) && l.has(vs[2]));
    assert(vs[0].0 < st.code.len() && vs[1].0 < st.code.len() && vs[2].0 < st.code.len());
    let (s1, out) = st.rt(sym, vs);
    let m = straight::leads_call(l, around, st, Callee::Runtime(sym), vs);
    assert(l.all(vs) =~= seq![l.val(x), l.val(dims), l.val(n)]);
    training_runs::values_stay(l, around, st, s1, m, vs);
    assert(m.has(vs[0]) && m.has(vs[1]) && m.has(vs[2]));
    if !grad {
        m
    } else if reshape {
        let ws = seq![x, out];
        let tag = OpTag::Reshape.tag();
        let e = training_runs::told(m, around, s1, RtSym::TapeRecordUnary, tag, ws);
        let (s2, k) = s1.iconst(ClTy::I32, tag);
        assert(seq![k] + ws =~= seq![k, x, out]);
        assert(m.val(vs[0]) == l.val(x));
        assert(seq![tag] + m.all(ws) =~= seq![tag, l.val(x), m.val(out)]);
        let t = s2.rt(RtSym::TapeRecordUnary, seq![k] + ws).0;
        straight::leads_on(l, around, st, s1, m, t, e);
        training_runs::values_stay(m, around, s1, t, e, seq![out]);
        assert(e.has(seq![out][0]));
        e
    } else {
        let ws = seq![x, out, dims, n];
        let tag = OpTag::Transpose.tag();
        let e = training_runs::told(m, around, s1, RtSym::TapeRecordPerm, tag, ws);
        let (s2, k) = s1.iconst(ClTy::I32, tag);
        assert(seq![k] + ws =~= seq![k, x, out, dims, n]);
        assert(m.val(vs[0]) == l.val(x) && m.val(vs[1]) == l.val(dims) && m.val(vs[2]) == l.val(n));
        assert(seq![tag] + m.all(ws) =~= seq![
            tag,
            l.val(x),
            m.val(out),
            l.val(dims),
            l.val(n),
        ]);
        let t = s2.rt(RtSym::TapeRecordPerm, seq![k] + ws).0;
        straight::leads_on(l, around, st, s1, m, t, e);
        training_runs::values_stay(m, around, s1, t, e, seq![out]);
        assert(e.has(seq![out][0]));
        e
    }
}

/// `reshape`, and the reorderings that have no function of their own, are
/// lowered to the tensor, the dimensions, and then to what
/// [`shapes_are_changed_by_the_runtime`] says.
pub proof fn shape_functions_are_lowered(
    st: St,
    env: EnvView,
    b: Builtin,
    args: Seq<TypedExpr>,
    grad: bool,
)
    requires
        b is Reshape || (b is Transpose && args.len() != 1) || (b is Permute && args.len() != 4),
        st.shape_op(env, b, args, grad) is Ok,
    ensures
        ({
            let (s1, vs) = st.list(env, args, 0, 1, Seq::empty())->Ok_0;
            let (s2, dims, n) = s1.dim_args(env, args)->Ok_0;
            let (s3, out) = s2.rt(
                if b is Reshape {
                    RtSym::TensorReshape
                } else {
                    RtSym::TensorPermute
                },
                seq![vs[0], dims, n],
            );
            st.shape_op(env, b, args, grad)->Ok_0 == (
                if !grad {
                    s3
                } else if b is Reshape {
                    s3.record_unary(crate::codegen_cpu::builtins::OPTAG_RESHAPE, vs[0], out)
                } else {
                    s3.record_perm(vs[0], out, dims, n)
                },
                out,
            )
        }),
{
}

/// Nothing is recorded in a block without gradients: the tape pauses before the
/// statements of the block and goes on after them.
pub proof fn recording_pauses(
    l: Line,
    around: Around,
    st: St,
    env: EnvView,
    exits: crate::codegen_cpu::scheme_stmt::LoopExits,
    s: TypedStmt,
    after: Line,
) -> (ends: (Line, Line))
    requires
        s is NoGrad,
        st.stmt(env, exits, s) is Ok,
        begins(l, st, seq![]),
        ({
            let s1 = st.rt(RtSym::TapePause, seq![]).0;
            let s2 = s1.all(env, exits, s->NoGrad_body@, 0)->Ok_0;
            begins(after, s2, seq![])
        }),
    ensures
        ({
            let s1 = st.rt(RtSym::TapePause, seq![]).0;
            let s2 = s1.all(env, exits, s->NoGrad_body@, 0)->Ok_0;
            let t = st.stmt(env, exits, s)->Ok_0.0;
            &&& l.leads(around, st, s1, ends.0)
            &&& ends.0.deeds == l.deeds.push(asked(RtSym::TapePause, seq![], l.stack))
            &&& s1.all(env, exits, s->NoGrad_body@, 0) is Ok
            &&& after.leads(around, s2, t, ends.1)
            &&& ends.1.deeds == after.deeds.push(asked(RtSym::TapeResume, seq![], after.stack))
            &&& !st.stmt(env, exits, s)->Ok_0.1
        }),
{
    let none = Seq::<Val>::empty();
    let s1 = st.rt(RtSym::TapePause, seq![]).0;
    let s2 = s1.all(env, exits, s->NoGrad_body@, 0)->Ok_0;
    assert(l.all(none) =~= Seq::<int>::empty());
    assert(after.all(none) =~= Seq::<int>::empty());
    let a = straight::leads_call(l, around, st, Callee::Runtime(RtSym::TapePause), none);
    let b = straight::leads_call(after, around, s2, Callee::Runtime(RtSym::TapeResume), none);
    (a, b)
}

} // verus!
