//! What the code of the built-in tensor functions does: which function it calls
//! on what, which result is the value, and what the tape is told.

use crate::codegen_cpu::builtins::Builtin;
use crate::codegen_cpu::inst::{Callee, ClTy, Inst, StackSlot, Val};
use crate::codegen_cpu::machine;
use crate::codegen_cpu::releases;
use crate::codegen_cpu::state;
use crate::codegen_cpu::state::{EnvView, Fail, St};
use crate::codegen_cpu::straight;
use crate::codegen_cpu::straight::{asked, Around, Deed, Line};
use crate::codegen_cpu::symbols::RtSym;
use crate::runtime::tags::OpTag;
use crate::typed::{BinOp, TypedExpr};
use vstd::prelude::*;

verus! {

/// What is on the stack.
pub type Stack = Map<(nat, int), int>;

/// A call of a library function, as a deed.
pub open spec fn called(env: EnvView, name: Seq<char>, args: Seq<int>, stack: Stack) -> Deed {
    Deed::Call { callee: env.fns[name].callee(), args, stack }
}

/// Whether code leads from one point to another, where a value is some number
/// and some deeds have been done.
pub open spec fn does(
    l: Line,
    around: Around,
    from: St,
    to: St,
    v: Val,
    e: Line,
    x: int,
    deeds: Seq<Deed>,
) -> bool {
    &&& l.leads(around, from, to, e)
    &&& e.has(v)
    &&& e.val(v) == x
    &&& e.deeds == deeds
    &&& e.vars == l.vars
    &&& e.passed.len() == 0
}

/// Whether a run can begin: nothing is passed yet, there is room for more code,
/// and some values are there.
pub open spec fn begins(l: Line, st: St, vs: Seq<Val>) -> bool {
    &&& st.tys.len() == st.code.len()
    &&& st.code.len() + vs.len() + 100 <= usize::MAX
    &&& l.passed.len() == 0
    &&& l.has_all(vs)
    &&& forall|i: int| 0 <= i < vs.len() ==> (#[trigger] vs[i]).0 < st.code.len()
}

proof fn wrapped(ty: ClTy, x: int)
    requires
        0 <= x < 100,
    ensures
        machine::wrap(ty, x) == x,
{
    vstd::arithmetic::div_mod::lemma_small_mod(x as nat, machine::modulus(ty) as nat);
}

/// A small constant.
pub proof fn constant(l: Line, around: Around, st: St, ty: ClTy, imm: int) -> (e: Line)
    requires
        st.tys.len() == st.code.len(),
        st.code.len() < usize::MAX,
        0 <= imm < 100,
    ensures
        l.leads(around, st, st.iconst(ty, imm).0, e),
        e == (Line { vals: l.vals.insert(st.code.len(), imm), ..l }),
        st.iconst(ty, imm).0.code.len() == st.code.len() + 1,
        st.iconst(ty, imm).1.0 == st.code.len(),
{
    let inst = Inst::Iconst { ty, imm: imm as i64 };
    assert(st.emit(inst).code[st.code.len() as int] == inst);
    wrapped(ty, imm);
    straight::leads_value(l, around, st, inst, imm)
}

/// A word of memory.
pub proof fn loaded(l: Line, around: Around, st: St, base: Val, offset: i32) -> (e: Line)
    requires
        st.tys.len() == st.code.len(),
        st.code.len() < usize::MAX,
        l.has(base),
    ensures
        l.leads(around, st, st.load(ClTy::I64, base, offset).0, e),
        e == (Line {
            vals: l.vals.insert(
                st.code.len(),
                (around.memory)(l.deeds, l.val(base) + offset),
            ),
            ..l
        }),
        st.load(ClTy::I64, base, offset).0.code.len() == st.code.len() + 1,
        st.load(ClTy::I64, base, offset).1.0 == st.code.len(),
{
    let inst = Inst::Load { ty: ClTy::I64, base, offset };
    assert(st.emit(inst).code[st.code.len() as int] == inst);
    straight::leads_value(
        l,
        around,
        st,
        inst,
        (around.memory)(l.deeds, l.val(base) + offset),
    )
}

/// The tape is told a tag and some values.
pub proof fn told(l: Line, around: Around, st: St, sym: RtSym, tag: int, vs: Seq<Val>) -> (e: Line)
    requires
        st.tys.len() == st.code.len(),
        st.code.len() + vs.len() + 8 <= usize::MAX,
        l.passed.len() == 0,
        l.has_all(vs),
        forall|i: int| 0 <= i < vs.len() ==> (#[trigger] vs[i]).0 < st.code.len(),
        0 <= tag < 100,
    ensures
        ({
            let (s1, t) = st.iconst(ClTy::I32, tag);
            let s2 = s1.rt(sym, seq![t] + vs).0;
            &&& l.leads(around, st, s2, e)
            &&& e.deeds == l.deeds.push(asked(sym, seq![tag] + l.all(vs), l.stack))
            &&& e.vars == l.vars
            &&& e.passed.len() == 0
            &&& e.stack == l.stack
        }),
{
    let (s1, t) = st.iconst(ClTy::I32, tag);
    let m = constant(l, around, st, ClTy::I32, tag);
    let all = seq![t] + vs;
    assert forall|i: int| 0 <= i < all.len() implies m.has(#[trigger] all[i]) by {
        if i > 0 {
            assert(l.has(vs[i - 1]));
        }
    }
    assert(m.all(all) =~= seq![tag] + l.all(vs)) by {
        assert forall|i: int| 0 <= i < all.len() implies m.val(#[trigger] all[i]) == (seq![tag]
            + l.all(vs))[i] by {
            if i > 0 {
                assert(all[i] == vs[i - 1]);
                assert(vs[i - 1].0 < st.code.len());
            }
        }
    }
    let e = straight::leads_call(m, around, s1, Callee::Runtime(sym), all);
    straight::leads_on(l, around, st, s1, m, s1.rt(sym, all).0, e);
    e
}

/// Values stay while code runs.
pub proof fn values_stay(l: Line, around: Around, a: St, b: St, e: Line, vs: Seq<Val>)
    requires
        l.leads(around, a, b, e),
        l.has_all(vs),
        forall|i: int| 0 <= i < vs.len() ==> (#[trigger] vs[i]).0 < a.code.len(),
    ensures
        e.has_all(vs),
        e.all(vs) == l.all(vs),
        forall|i: int| 0 <= i < vs.len() ==> e.val(#[trigger] vs[i]) == l.val(vs[i]),
{
    assert forall|i: int| 0 <= i < vs.len() implies e.has(#[trigger] vs[i]) && e.val(vs[i])
        == l.val(vs[i]) by {
        assert(l.has(vs[i]));
        assert(e.vals.contains_key(vs[i].0 as nat));
    }
    assert(e.all(vs) =~= l.all(vs));
}

/// As many values come out as arguments go in.
pub proof fn list_len(st: St, env: EnvView, args: Seq<TypedExpr>, i: nat, n: nat, vs: Seq<Val>)
    requires
        i <= n,
        st.list(env, args, i, n, vs) is Ok,
    ensures
        st.list(env, args, i, n, vs)->Ok_0.1.len() == vs.len() + n - i,
    decreases n - i,
{
    if i < n {
        let (s1, v) = st.expr(env, args[i as int])->Ok_0;
        list_len(s1, env, args, i + 1, n, vs.push(v));
    }
}

/// A function that returns a pair is called on two arguments, both members of
/// the pair are read, and the pair is handed back.
proof fn pair_taken(l: Line, around: Around, env: EnvView, s1: St, vs: Seq<Val>, name: Seq<char>)
    -> (e: Line)
    requires
        env.fns.contains_key(name),
        vs.len() == 2,
        begins(l, s1, vs),
    ensures
        ({
            let (s2, pair) = s1.call(env.fns[name].callee(), vs);
            let (s3, a) = s2.load(ClTy::I64, pair, 8);
            let (s4, b) = s3.load(ClTy::I64, pair, 16);
            let s5 = s4.rt(RtSym::AggregateRelease, seq![pair]).0;
            let deeds = l.deeds.push(called(env, name, l.all(vs), l.stack));
            let box_ = (around.answer)(deeds);
            &&& l.leads(around, s1, s5, e)
            &&& e.has(a)
            &&& e.has(b)
            &&& e.val(a) == (around.memory)(deeds, releases::slot_at(box_, 8, 0))
            &&& e.val(b) == (around.memory)(deeds, releases::slot_at(box_, 8, 1))
            &&& e.deeds == deeds.push(asked(RtSym::AggregateRelease, seq![box_], l.stack))
            &&& e.vars == l.vars
            &&& e.stack == l.stack
            &&& e.passed.len() == 0
            &&& s5.code.len() == s1.code.len() + 7
            &&& a.0 == s1.code.len() + 3
            &&& b.0 == s1.code.len() + 4
        }),
{
    let (s2, pair) = s1.call(env.fns[name].callee(), vs);
    let m1 = straight::leads_call(l, around, s1, env.fns[name].callee(), vs);
    let (s3, a) = s2.load(ClTy::I64, pair, 8);
    let m2 = loaded(m1, around, s2, pair, 8);
    let (s4, b) = s3.load(ClTy::I64, pair, 16);
    let m3 = loaded(m2, around, s3, pair, 16);
    straight::leads_on(l, around, s1, s2, m1, s3, m2);
    straight::leads_on(l, around, s1, s3, m2, s4, m3);
    let box_ = (around.answer)(m1.deeds);
    assert(m3.val(pair) == box_);
    assert(m3.all(seq![pair]) =~= seq![box_]);
    let e = straight::leads_call(
        m3,
        around,
        s4,
        Callee::Runtime(RtSym::AggregateRelease),
        seq![pair],
    );
    let s5 = s4.rt(RtSym::AggregateRelease, seq![pair]).0;
    straight::leads_on(l, around, s1, s4, m3, s5, e);
    e
}

/// The value of `cross_entropy` is the first member of the pair that the
/// library returns, the loss. The second member, the probabilities, is saved on
/// the tape, with the logits and the targets, where the result takes part in
/// gradients; elsewhere it is freed, and nothing else is.
#[verifier::spinoff_prover]
#[verifier::rlimit(50)]
pub proof fn cross_entropy_is_the_loss(
    l: Line,
    around: Around,
    st: St,
    env: EnvView,
    args: Seq<TypedExpr>,
    grad: bool,
) -> (e: Line)
    requires
        st.list(env, args, 0, 2, Seq::empty()) is Ok,
        ({
            let (s1, vs) = st.list(env, args, 0, 2, Seq::empty())->Ok_0;
            begins(l, s1, vs)
        }),
    ensures
        ({
            let (s1, vs) = st.list(env, args, 0, 2, Seq::empty())->Ok_0;
            let name = "__cross_entropy_fwd"@;
            match st.cross_entropy(env, args, grad) {
                Ok((t, v)) => {
                    let (logits, targets) = (l.val(vs[0]), l.val(vs[1]));
                    let deeds = l.deeds.push(called(env, name, seq![logits, targets], l.stack));
                    let pair = (around.answer)(deeds);
                    let loss = (around.memory)(deeds, releases::slot_at(pair, 8, 0));
                    let probs = (around.memory)(deeds, releases::slot_at(pair, 8, 1));
                    let back = deeds.push(asked(RtSym::AggregateRelease, seq![pair], l.stack));
                    does(
                        l,
                        around,
                        s1,
                        t,
                        v,
                        e,
                        loss,
                        back.push(
                            if grad {
                                asked(
                                    RtSym::TapeRecordCrossEntropy,
                                    seq![
                                        OpTag::CrossEntropy.tag(),
                                        logits,
                                        loss,
                                        probs,
                                        targets,
                                    ],
                                    l.stack,
                                )
                            } else {
                                asked(RtSym::TensorFree, seq![probs], l.stack)
                            },
                        ),
                    )
                },
                Err(_) => !env.fns.contains_key(name),
            }
        }),
{
    let (s1, vs) = st.list(env, args, 0, 2, Seq::empty())->Ok_0;
    list_len(st, env, args, 0, 2, Seq::empty());
    let name = "__cross_entropy_fwd"@;
    if env.fns.contains_key(name) {
        let m = pair_taken(l, around, env, s1, vs, name);
        let (s2, pair) = s1.call(env.fns[name].callee(), vs);
        let (s3, loss) = s2.load(ClTy::I64, pair, 8);
        let (s4, probs) = s3.load(ClTy::I64, pair, 16);
        let s5 = s4.rt(RtSym::AggregateRelease, seq![pair]).0;
        assert(l.all(vs) =~= seq![l.val(vs[0]), l.val(vs[1])]);
        values_stay(l, around, s1, s5, m, vs);
        if grad {
            let ws = seq![vs[0], loss, probs, vs[1]];
            assert(m.has(vs[0]) && m.has(vs[1]));
            assert(m.all(ws) =~= seq![m.val(vs[0]), m.val(loss), m.val(probs), m.val(vs[1])]);
            let tag = OpTag::CrossEntropy.tag();
            let e = told(m, around, s5, RtSym::TapeRecordCrossEntropy, tag, ws);
            let (s6, k) = s5.iconst(ClTy::I32, tag);
            assert(seq![k] + ws =~= seq![k, vs[0], loss, probs, vs[1]]);
            assert(seq![tag] + m.all(ws) =~= seq![
                tag,
                m.val(vs[0]),
                m.val(loss),
                m.val(probs),
                m.val(vs[1]),
            ]);
            let t = s6.rt(RtSym::TapeRecordCrossEntropy, seq![k] + ws).0;
            straight::leads_on(l, around, s1, s5, m, t, e);
            values_stay(m, around, s5, t, e, seq![loss]);
            assert(e.has(seq![loss][0]));
            e
        } else {
            let ws = seq![probs];
            assert(m.all(ws) =~= seq![m.val(probs)]);
            let e = straight::leads_call(m, around, s5, Callee::Runtime(RtSym::TensorFree), ws);
            let t = s5.rt(RtSym::TensorFree, ws).0;
            straight::leads_on(l, around, s1, s5, m, t, e);
            e
        }
    } else {
        l
    }
}

/// The value of `layernorm` is the first member of the pair that the library
/// returns. The second member, the variance, is saved on the tape, with the
/// operand and the axis, where the result takes part in gradients.
#[verifier::spinoff_prover]
#[verifier::rlimit(50)]
pub proof fn layernorm_is_the_normed_tensor(
    l: Line,
    around: Around,
    st: St,
    env: EnvView,
    args: Seq<TypedExpr>,
    grad: bool,
) -> (e: Line)
    requires
        st.list(env, args, 0, 2, Seq::empty()) is Ok,
        ({
            let (s1, vs) = st.list(env, args, 0, 2, Seq::empty())->Ok_0;
            begins(l, s1, vs)
        }),
    ensures
        ({
            let (s1, vs) = st.list(env, args, 0, 2, Seq::empty())->Ok_0;
            let name = "__layernorm_fwd"@;
            match st.layernorm(env, args, grad) {
                Ok((t, v)) => {
                    let (x, axis) = (l.val(vs[0]), l.val(vs[1]));
                    let deeds = l.deeds.push(called(env, name, seq![x, axis], l.stack));
                    let pair = (around.answer)(deeds);
                    let normed = (around.memory)(deeds, releases::slot_at(pair, 8, 0));
                    let variance = (around.memory)(deeds, releases::slot_at(pair, 8, 1));
                    let back = deeds.push(asked(RtSym::AggregateRelease, seq![pair], l.stack));
                    does(
                        l,
                        around,
                        s1,
                        t,
                        v,
                        e,
                        normed,
                        if grad {
                            back.push(
                                asked(
                                    RtSym::TapeRecordLayernorm,
                                    seq![OpTag::Layernorm.tag(), x, normed, variance, axis],
                                    l.stack,
                                ),
                            )
                        } else {
                            back
                        },
                    )
                },
                Err(_) => !env.fns.contains_key(name),
            }
        }),
{
    let (s1, vs) = st.list(env, args, 0, 2, Seq::empty())->Ok_0;
    list_len(st, env, args, 0, 2, Seq::empty());
    let name = "__layernorm_fwd"@;
    if env.fns.contains_key(name) {
        let m = pair_taken(l, around, env, s1, vs, name);
        let (s2, pair) = s1.call(env.fns[name].callee(), vs);
        let (s3, normed) = s2.load(ClTy::I64, pair, 8);
        let (s4, variance) = s3.load(ClTy::I64, pair, 16);
        let s5 = s4.rt(RtSym::AggregateRelease, seq![pair]).0;
        assert(l.all(vs) =~= seq![l.val(vs[0]), l.val(vs[1])]);
        values_stay(l, around, s1, s5, m, vs);
        if grad {
            let ws = seq![vs[0], normed, variance, vs[1]];
            assert(m.has(vs[0]) && m.has(vs[1]));
            let tag = OpTag::Layernorm.tag();
            let e = told(m, around, s5, RtSym::TapeRecordLayernorm, tag, ws);
            let (s6, k) = s5.iconst(ClTy::I32, tag);
            assert(seq![k] + ws =~= seq![k, vs[0], normed, variance, vs[1]]);
            assert(seq![tag] + m.all(ws) =~= seq![
                tag,
                m.val(vs[0]),
                m.val(normed),
                m.val(variance),
                m.val(vs[1]),
            ]);
            let t = s6.rt(RtSym::TapeRecordLayernorm, seq![k] + ws).0;
            straight::leads_on(l, around, s1, s5, m, t, e);
            values_stay(m, around, s5, t, e, seq![normed]);
            assert(e.has(seq![normed][0]));
            e
        } else {
            m
        }
    } else {
        l
    }
}

/// A library function is called on some values; then, where its result takes
/// part in gradients, the tape is told a tag and some of the values.
proof fn call_told(
    l: Line,
    around: Around,
    s1: St,
    callee: Callee,
    vs: Seq<Val>,
    grad: bool,
    sym: RtSym,
    tag: int,
    ws: Seq<Val>,
) -> (e: Line)
    requires
        begins(l, s1, vs),
        ws.len() <= 5,
        0 <= tag < 100,
        forall|i: int|
            0 <= i < ws.len() ==> vs.contains(#[trigger] ws[i]) || ws[i] == s1.call(callee, vs).1,
    ensures
        ({
            let (s2, out) = s1.call(callee, vs);
            let (s3, k) = s2.iconst(ClTy::I32, tag);
            let t = if grad {
                s3.rt(sym, seq![k] + ws).0
            } else {
                s2
            };
            let deeds = l.deeds.push(Deed::Call { callee, args: l.all(vs), stack: l.stack });
            let x = (around.answer)(deeds);
            let told = ws.map_values(
                |w: Val|
                    if w == out {
                        x
                    } else {
                        l.val(w)
                    },
            );
            does(
                l,
                around,
                s1,
                t,
                out,
                e,
                x,
                if grad {
                    deeds.push(asked(sym, seq![tag] + told, l.stack))
                } else {
                    deeds
                },
            )
        }),
{
    let (s2, out) = s1.call(callee, vs);
    let m = straight::leads_call(l, around, s1, callee, vs);
    values_stay(l, around, s1, s2, m, vs);
    if grad {
        let (s3, k) = s2.iconst(ClTy::I32, tag);
        let x = (around.answer)(m.deeds);
        let told_ = ws.map_values(
            |w: Val|
                if w == out {
                    x
                } else {
                    l.val(w)
                },
        );
        assert forall|i: int| 0 <= i < ws.len() implies m.has(#[trigger] ws[i]) && ws[i].0
            < s2.code.len() && m.val(ws[i]) == told_[i] by {
            if ws[i] != out {
                let j = choose|j: int| 0 <= j < vs.len() && vs[j] == ws[i];
                assert(m.has(vs[j]) && vs[j].0 < s1.code.len());
                assert(m.val(vs[j]) == l.val(vs[j]));
            }
        }
        assert(m.all(ws) =~= told_);
        let e = told(m, around, s2, sym, tag, ws);
        let t = s3.rt(sym, seq![k] + ws).0;
        straight::leads_on(l, around, s1, s2, m, t, e);
        values_stay(m, around, s2, t, e, seq![out]);
        assert(e.has(seq![out][0]));
        e
    } else {
        m
    }
}

/// What a built-in function of one value does: the library function is called
/// on it, and where the result takes part in gradients, the tape is told the
/// operation, the operand and the result.
pub open spec fn applies_one(
    l: Line,
    around: Around,
    env: EnvView,
    s1: St,
    x: int,
    name: Seq<char>,
    op: OpTag,
    grad: bool,
    r: Result<(St, Val), Fail>,
    e: Line,
) -> bool {
    match r {
        Ok((t, v)) => {
            let deeds = l.deeds.push(called(env, name, seq![x], l.stack));
            let out = (around.answer)(deeds);
            does(
                l,
                around,
                s1,
                t,
                v,
                e,
                out,
                if grad {
                    deeds.push(
                        asked(RtSym::TapeRecordUnary, seq![op.tag(), x, out], l.stack),
                    )
                } else {
                    deeds
                },
            )
        },
        Err(_) => !env.fns.contains_key(name),
    }
}

/// `gelu` and the sum of a whole tensor call the function of the library for
/// it, and are recorded as what they are.
pub proof fn gelu_and_sum_are_recorded(
    l: Line,
    around: Around,
    st: St,
    env: EnvView,
    args: Seq<TypedExpr>,
    grad: bool,
) -> (ends: (Line, Line))
    requires
        st.list(env, args, 0, 1, Seq::empty()) is Ok,
        ({
            let (s1, vs) = st.list(env, args, 0, 1, Seq::empty())->Ok_0;
            begins(l, s1, vs)
        }),
    ensures
        ({
            let (s1, vs) = st.list(env, args, 0, 1, Seq::empty())->Ok_0;
            &&& applies_one(
                l,
                around,
                env,
                s1,
                l.val(vs[0]),
                "__gelu_fwd"@,
                OpTag::Gelu,
                grad,
                st.gelu(env, args, grad),
                ends.0,
            )
            &&& applies_one(
                l,
                around,
                env,
                s1,
                l.val(vs[0]),
                "__reduce_all_sum_fwd"@,
                OpTag::Sum,
                grad,
                st.sum_all(env, args, grad),
                ends.1,
            )
        }),
{
    let (s1, vs) = st.list(env, args, 0, 1, Seq::empty())->Ok_0;
    list_len(st, env, args, 0, 1, Seq::empty());
    (
        applied_one(l, around, env, s1, vs, "__gelu_fwd"@, OpTag::Gelu, grad),
        applied_one(l, around, env, s1, vs, "__reduce_all_sum_fwd"@, OpTag::Sum, grad),
    )
}

proof fn applied_one(
    l: Line,
    around: Around,
    env: EnvView,
    s1: St,
    vs: Seq<Val>,
    name: Seq<char>,
    op: OpTag,
    grad: bool,
) -> (e: Line)
    requires
        vs.len() == 1,
        begins(l, s1, vs),
    ensures
        applies_one(
            l,
            around,
            env,
            s1,
            l.val(vs[0]),
            name,
            op,
            grad,
            match s1.fwd_call(env, name, vs) {
                Err(x) => Err(x),
                Ok((s2, out)) => Ok(
                    (
                        if grad {
                            s2.record_unary(op.tag() as i32, vs[0], out)
                        } else {
                            s2
                        },
                        out,
                    ),
                ),
            },
            e,
        ),
{
    if env.fns.contains_key(name) {
        let c = env.fns[name].callee();
        let out = s1.call(c, vs).1;
        let ws = seq![vs[0], out];
        let e = call_told(
            l,
            around,
            s1,
            c,
            vs,
            grad,
            RtSym::TapeRecordUnary,
            op.tag(),
            ws,
        );
        let (s3, k) = s1.call(c, vs).0.iconst(ClTy::I32, op.tag());
        assert(seq![k] + ws =~= seq![k, vs[0], out]);
        assert(l.all(vs) =~= seq![l.val(vs[0])]);
        told_texts(l, around, s1, c, vs, ws);
        let x = (around.answer)(
            l.deeds.push(Deed::Call { callee: c, args: l.all(vs), stack: l.stack }),
        );
        assert(seq![op.tag()] + seq![l.val(vs[0]), x] =~= seq![op.tag(), l.val(vs[0]), x]);
        e
    } else {
        l
    }
}

/// What the tape is told, for an operand and the result.
proof fn told_texts(l: Line, around: Around, s1: St, callee: Callee, vs: Seq<Val>, ws: Seq<Val>)
    requires
        begins(l, s1, vs),
        vs.len() > 0,
        ws == seq![vs[0], s1.call(callee, vs).1],
    ensures
        ({
            let out = s1.call(callee, vs).1;
            let x = (around.answer)(
                l.deeds.push(Deed::Call { callee, args: l.all(vs), stack: l.stack }),
            );
            ws.map_values(
                |w: Val|
                    if w == out {
                        x
                    } else {
                        l.val(w)
                    },
            ) == seq![l.val(vs[0]), x]
        }),
{
    straight::leads_call(l, around, s1, callee, vs);
    let out = s1.call(callee, vs).1;
    assert(vs[0].0 < s1.code.len());
    let x = (around.answer)(
        l.deeds.push(Deed::Call { callee, args: l.all(vs), stack: l.stack }),
    );
    assert(ws.map_values(
        |w: Val|
            if w == out {
                x
            } else {
                l.val(w)
            },
    ) =~= seq![l.val(vs[0]), x]);
}

/// The result of a call is none of its arguments.
proof fn result_is_new(l: Line, around: Around, s1: St, callee: Callee, vs: Seq<Val>)
    requires
        begins(l, s1, vs),
    ensures
        forall|j: int| 0 <= j < vs.len() ==> #[trigger] vs[j] != s1.call(callee, vs).1,
{
    straight::leads_call(l, around, s1, callee, vs);
}

/// A reduction along an axis calls the function of the library for it on the
/// tensor, the axis and whether to keep the dimension, and the tape is told the
/// operation, the tensor, the result, the axis and the flag.
pub proof fn reductions_are_recorded(
    l: Line,
    around: Around,
    st: St,
    env: EnvView,
    b: Builtin,
    args: Seq<TypedExpr>,
    grad: bool,
) -> (e: Line)
    requires
        b is Sum || b is Mean || b is Max || b is Variance,
        st.list(env, args, 0, 3, Seq::empty()) is Ok,
        ({
            let (s1, vs) = st.list(env, args, 0, 3, Seq::empty())->Ok_0;
            begins(l, s1, vs)
        }),
    ensures
        ({
            let (s1, vs) = st.list(env, args, 0, 3, Seq::empty())->Ok_0;
            let (name, op) = match b {
                Builtin::Sum => ("__reduce_sum_fwd"@, OpTag::ReduceSumAxis),
                Builtin::Mean => ("__reduce_mean_fwd"@, OpTag::ReduceMeanAxis),
                Builtin::Max => ("__reduce_max_fwd"@, OpTag::ReduceMaxAxis),
                _ => ("__reduce_var_fwd"@, OpTag::ReduceVarAxis),
            };
            match st.axis_reduction(env, b, args, grad) {
                Ok((t, v)) => {
                    let (x, axis, keep) = (l.val(vs[0]), l.val(vs[1]), l.val(vs[2]));
                    let deeds = l.deeds.push(called(env, name, seq![x, axis, keep], l.stack));
                    let out = (around.answer)(deeds);
                    does(
                        l,
                        around,
                        s1,
                        t,
                        v,
                        e,
                        out,
                        if grad {
                            deeds.push(
                                asked(
                                    RtSym::TapeRecordReduce,
                                    seq![op.tag(), x, out, axis, keep],
                                    l.stack,
                                ),
                            )
                        } else {
                            deeds
                        },
                    )
                },
                Err(_) => !env.fns.contains_key(name),
            }
        }),
{
    let (s1, vs) = st.list(env, args, 0, 3, Seq::empty())->Ok_0;
    list_len(st, env, args, 0, 3, Seq::empty());
    let (name, tag) = b.axis_fwd();
    if env.fns.contains_key(name) {
        reduction_told(l, around, s1, env.fns[name].callee(), vs, grad, tag as int)
    } else {
        l
    }
}

/// A function of three values is called, and the tape is told all of them, with
/// the result behind the first.
proof fn reduction_told(
    l: Line,
    around: Around,
    s1: St,
    c: Callee,
    vs: Seq<Val>,
    grad: bool,
    tag: int,
) -> (e: Line)
    requires
        begins(l, s1, vs),
        vs.len() == 3,
        0 <= tag < 100,
    ensures
        ({
            let (s2, out) = s1.call(c, vs);
            let (s3, k) = s2.iconst(ClTy::I32, tag);
            let t = if grad {
                s3.rt(RtSym::TapeRecordReduce, seq![k, vs[0], out, vs[1], vs[2]]).0
            } else {
                s2
            };
            let (x, axis, keep) = (l.val(vs[0]), l.val(vs[1]), l.val(vs[2]));
            let deeds = l.deeds.push(
                Deed::Call { callee: c, args: seq![x, axis, keep], stack: l.stack },
            );
            let z = (around.answer)(deeds);
            does(
                l,
                around,
                s1,
                t,
                out,
                e,
                z,
                if grad {
                    deeds.push(
                        asked(RtSym::TapeRecordReduce, seq![tag, x, z, axis, keep], l.stack),
                    )
                } else {
                    deeds
                },
            )
        }),
{
    let out = s1.call(c, vs).1;
    let ws = seq![vs[0], out, vs[1], vs[2]];
    let e = call_told(l, around, s1, c, vs, grad, RtSym::TapeRecordReduce, tag, ws);
    let (s3, k) = s1.call(c, vs).0.iconst(ClTy::I32, tag);
    assert(seq![k] + ws =~= seq![k, vs[0], out, vs[1], vs[2]]);
    assert(l.all(vs) =~= seq![l.val(vs[0]), l.val(vs[1]), l.val(vs[2])]);
    result_is_new(l, around, s1, c, vs);
    let x = (around.answer)(
        l.deeds.push(Deed::Call { callee: c, args: l.all(vs), stack: l.stack }),
    );
    let told_ = ws.map_values(
        |w: Val|
            if w == out {
                x
            } else {
                l.val(w)
            },
    );
    assert(seq![tag] + told_ =~= seq![tag, l.val(vs[0]), x, l.val(vs[1]), l.val(vs[2])]);
    e
}

/// `embedding` looks the indices up in the table, in this order, and is
/// recorded with both and the result.
pub proof fn embeddings_are_recorded(
    l: Line,
    around: Around,
    st: St,
    env: EnvView,
    args: Seq<TypedExpr>,
    grad: bool,
) -> (e: Line)
    requires
        st.list(env, args, 0, 2, Seq::empty()) is Ok,
        ({
            let (s1, vs) = st.list(env, args, 0, 2, Seq::empty())->Ok_0;
            begins(l, s1, vs)
        }),
    ensures
        ({
            let (s1, vs) = st.list(env, args, 0, 2, Seq::empty())->Ok_0;
            let name = "__embedding_fwd"@;
            match st.embedding(env, args, grad) {
                Ok((t, v)) => {
                    let (table, indices) = (l.val(vs[0]), l.val(vs[1]));
                    let deeds = l.deeds.push(called(env, name, seq![table, indices], l.stack));
                    let out = (around.answer)(deeds);
                    does(
                        l,
                        around,
                        s1,
                        t,
                        v,
                        e,
                        out,
                        if grad {
                            deeds.push(
                                asked(
                                    RtSym::TapeRecordEmbedding,
                                    seq![OpTag::Embedding.tag(), table, indices, out],
                                    l.stack,
                                ),
                            )
                        } else {
                            deeds
                        },
                    )
                },
                Err(_) => !env.fns.contains_key(name),
            }
        }),
{
    let (s1, vs) = st.list(env, args, 0, 2, Seq::empty())->Ok_0;
    list_len(st, env, args, 0, 2, Seq::empty());
    let name = "__embedding_fwd"@;
    if env.fns.contains_key(name) {
        let c = env.fns[name].callee();
        pair_told(l, around, s1, c, vs, grad, RtSym::TapeRecordEmbedding, OpTag::Embedding.tag())
    } else {
        l
    }
}

/// A function of two values is called, and the tape is told both and the
/// result.
proof fn pair_told(
    l: Line,
    around: Around,
    s1: St,
    c: Callee,
    vs: Seq<Val>,
    grad: bool,
    sym: RtSym,
    tag: int,
) -> (e: Line)
    requires
        begins(l, s1, vs),
        vs.len() == 2,
        0 <= tag < 100,
    ensures
        ({
            let (s2, out) = s1.call(c, vs);
            let (s3, k) = s2.iconst(ClTy::I32, tag);
            let t = if grad {
                s3.rt(sym, seq![k, vs[0], vs[1], out]).0
            } else {
                s2
            };
            let (x, y) = (l.val(vs[0]), l.val(vs[1]));
            let deeds = l.deeds.push(
                Deed::Call { callee: c, args: seq![x, y], stack: l.stack },
            );
            let z = (around.answer)(deeds);
            does(
                l,
                around,
                s1,
                t,
                out,
                e,
                z,
                if grad {
                    deeds.push(asked(sym, seq![tag, x, y, z], l.stack))
                } else {
                    deeds
                },
            )
        }),
{
    let out = s1.call(c, vs).1;
    let ws = seq![vs[0], vs[1], out];
    let e = call_told(l, around, s1, c, vs, grad, sym, tag, ws);
    let (s3, k) = s1.call(c, vs).0.iconst(ClTy::I32, tag);
    assert(seq![k] + ws =~= seq![k, vs[0], vs[1], out]);
    assert(l.all(vs) =~= seq![l.val(vs[0]), l.val(vs[1])]);
    result_is_new(l, around, s1, c, vs);
    let x = (around.answer)(
        l.deeds.push(Deed::Call { callee: c, args: l.all(vs), stack: l.stack }),
    );
    let told_ = ws.map_values(
        |w: Val|
            if w == out {
                x
            } else {
                l.val(w)
            },
    );
    assert(seq![tag] + told_ =~= seq![tag, l.val(vs[0]), l.val(vs[1]), x]);
    e
}

/// What stands for an operator between two tensors: a function of the library,
/// or the product of matrices in the runtime.
pub open spec fn tensor_function(env: EnvView, op: BinOp) -> Option<(Callee, OpTag)> {
    match op {
        BinOp::Add => Some((env.fns["__broadcast_add_fwd"@].callee(), OpTag::Add)),
        BinOp::Sub => Some((env.fns["__broadcast_sub_fwd"@].callee(), OpTag::Sub)),
        BinOp::Mul => Some((env.fns["__broadcast_mul_fwd"@].callee(), OpTag::Mul)),
        BinOp::Div => Some((env.fns["__broadcast_div_fwd"@].callee(), OpTag::Div)),
        BinOp::Matmul => Some((Callee::Runtime(RtSym::TensorMatmul), OpTag::Matmul)),
        _ => None,
    }
}

/// An operator between two tensors calls what stands for it on the left and
/// the right operand, in this order, and is recorded as that operation on them,
/// where its result takes part in gradients.
pub proof fn tensor_operators_are_recorded(
    l: Line,
    around: Around,
    st: St,
    env: EnvView,
    x: TypedExpr,
) -> (e: Line)
    requires
        x.kind is BinOp,
        st.tensor_binop(env, x) is Ok,
        ({
            let (s1, a) = st.expr(env, *x.kind->BinOp_lhs)->Ok_0;
            let (s2, b) = s1.expr(env, *x.kind->BinOp_rhs)->Ok_0;
            begins(l, s2, seq![a, b])
        }),
    ensures
        ({
            let (s1, a) = st.expr(env, *x.kind->BinOp_lhs)->Ok_0;
            let (s2, b) = s1.expr(env, *x.kind->BinOp_rhs)->Ok_0;
            let (t, v) = st.tensor_binop(env, x)->Ok_0;
            let f = tensor_function(env, x.kind->BinOp_op);
            &&& f is Some
            &&& ({
                let (callee, op) = f->0;
                let deeds = l.deeds.push(
                    Deed::Call { callee, args: seq![l.val(a), l.val(b)], stack: l.stack },
                );
                let out = (around.answer)(deeds);
                does(
                    l,
                    around,
                    s2,
                    t,
                    v,
                    e,
                    out,
                    if x.grad_tracked {
                        deeds.push(
                            asked(
                                RtSym::TapeRecordBinop,
                                seq![op.tag(), l.val(a), l.val(b), out],
                                l.stack,
                            ),
                        )
                    } else {
                        deeds
                    },
                )
            })
        }),
{
    let op = x.kind->BinOp_op;
    let (s1, a) = st.expr(env, *x.kind->BinOp_lhs)->Ok_0;
    let (s2, b) = s1.expr(env, *x.kind->BinOp_rhs)->Ok_0;
    let (c, o) = tensor_function(env, op)->0;
    pair_told(
        l,
        around,
        s2,
        c,
        seq![a, b],
        x.grad_tracked,
        RtSym::TapeRecordBinop,
        o.tag(),
    )
}

/// `softmax` calls the function of the library on the tensor and the axis, and
/// is recorded with both and the result.
#[verifier::spinoff_prover]
#[verifier::rlimit(50)]
pub proof fn softmax_is_recorded(
    l: Line,
    around: Around,
    st: St,
    env: EnvView,
    args: Seq<TypedExpr>,
    grad: bool,
) -> (e: Line)
    requires
        st.list(env, args, 0, 2, Seq::empty()) is Ok,
        ({
            let (s1, vs) = st.list(env, args, 0, 2, Seq::empty())->Ok_0;
            begins(l, s1, vs)
        }),
    ensures
        ({
            let (s1, vs) = st.list(env, args, 0, 2, Seq::empty())->Ok_0;
            let name = "__softmax_fwd"@;
            match st.softmax(env, args, grad) {
                Ok((t, v)) => {
                    let (x, axis) = (l.val(vs[0]), l.val(vs[1]));
                    let deeds = l.deeds.push(called(env, name, seq![x, axis], l.stack));
                    let out = (around.answer)(deeds);
                    does(
                        l,
                        around,
                        s1,
                        t,
                        v,
                        e,
                        out,
                        if grad {
                            deeds.push(
                                asked(
                                    RtSym::TapeRecordReduce,
                                    seq![OpTag::Softmax.tag(), x, out, axis, 0],
                                    l.stack,
                                ),
                            )
                        } else {
                            deeds
                        },
                    )
                },
                Err(_) => !env.fns.contains_key(name),
            }
        }),
{
    let (s1, vs) = st.list(env, args, 0, 2, Seq::empty())->Ok_0;
    list_len(st, env, args, 0, 2, Seq::empty());
    let name = "__softmax_fwd"@;
    if env.fns.contains_key(name) {
        let c = env.fns[name].callee();
        let (s2, out) = s1.call(c, vs);
        let m = straight::leads_call(l, around, s1, c, vs);
        assert(l.all(vs) =~= seq![l.val(vs[0]), l.val(vs[1])]);
        values_stay(l, around, s1, s2, m, vs);
        if grad {
            let (s3, zero) = s2.iconst(ClTy::I64, 0);
            let m2 = constant(m, around, s2, ClTy::I64, 0);
            straight::leads_on(l, around, s1, s2, m, s3, m2);
            assert(m.has(vs[0]) && m.has(vs[1]));
            let ws = seq![vs[0], out, vs[1], zero];
            let tag = OpTag::Softmax.tag();
            let e = told(m2, around, s3, RtSym::TapeRecordReduce, tag, ws);
            let (s4, k) = s3.iconst(ClTy::I32, tag);
            assert(seq![k] + ws =~= seq![k, vs[0], out, vs[1], zero]);
            assert(seq![tag] + m2.all(ws) =~= seq![
                tag,
                l.val(vs[0]),
                m.val(out),
                l.val(vs[1]),
                0,
            ]);
            let t = s4.rt(RtSym::TapeRecordReduce, seq![k] + ws).0;
            straight::leads_on(l, around, s1, s3, m2, t, e);
            values_stay(m2, around, s3, t, e, seq![out]);
            assert(e.has(seq![out][0]));
            e
        } else {
            m
        }
    } else {
        l
    }
}

/// `transpose` of a matrix calls the function of the library, and is recorded
/// without dimensions.
#[verifier::spinoff_prover]
#[verifier::rlimit(50)]
pub proof fn transposes_are_recorded(
    l: Line,
    around: Around,
    st: St,
    env: EnvView,
    x: Val,
    grad: bool,
) -> (e: Line)
    requires
        begins(l, st, seq![x]),
    ensures
        ({
            let name = "__transpose_2d_fwd"@;
            match st.transpose_2d(env, x, grad) {
                Ok((t, v)) => {
                    let deeds = l.deeds.push(called(env, name, seq![l.val(x)], l.stack));
                    let out = (around.answer)(deeds);
                    does(
                        l,
                        around,
                        st,
                        t,
                        v,
                        e,
                        out,
                        if grad {
                            deeds.push(
                                asked(
                                    RtSym::TapeRecordPerm,
                                    seq![OpTag::Transpose.tag(), l.val(x), out, 0, 0],
                                    l.stack,
                                ),
                            )
                        } else {
                            deeds
                        },
                    )
                },
                Err(_) => !env.fns.contains_key(name),
            }
        }),
{
    let name = "__transpose_2d_fwd"@;
    let vs = seq![x];
    if env.fns.contains_key(name) {
        let c = env.fns[name].callee();
        let (s2, out) = st.call(c, vs);
        let m = straight::leads_call(l, around, st, c, vs);
        assert(l.all(vs) =~= seq![l.val(x)]);
        values_stay(l, around, st, s2, m, vs);
        assert(l.has(vs[0]) && m.has(vs[0]) && vs[0].0 < st.code.len());
        if grad {
            let (s3, p) = s2.iconst(ClTy::Ptr, 0);
            let m2 = constant(m, around, s2, ClTy::Ptr, 0);
            let (s4, n) = s3.iconst(ClTy::Ptr, 0);
            let m3 = constant(m2, around, s3, ClTy::Ptr, 0);
            straight::leads_on(l, around, st, s2, m, s3, m2);
            straight::leads_on(l, around, st, s3, m2, s4, m3);
            let ws = seq![x, out, p, n];
            let tag = OpTag::Transpose.tag();
            let e = told(m3, around, s4, RtSym::TapeRecordPerm, tag, ws);
            let (s5, k) = s4.iconst(ClTy::I32, tag);
            assert(seq![k] + ws =~= seq![k, x, out, p, n]);
            assert(m.val(vs[0]) == l.val(x));
            assert(seq![tag] + m3.all(ws) =~= seq![tag, l.val(x), m.val(out), 0, 0]);
            let t = s5.rt(RtSym::TapeRecordPerm, seq![k] + ws).0;
            straight::leads_on(l, around, st, s4, m3, t, e);
            values_stay(m3, around, s4, t, e, seq![out]);
            assert(e.has(seq![out][0]));
            e
        } else {
            m
        }
    } else {
        l
    }
}

} // verus!
