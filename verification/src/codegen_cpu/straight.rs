//! How code without jumps runs: numbers of any kind, memory, stack slots, and
//! calls of the runtime and of functions.

use crate::codegen_cpu::inst::{Arith, Callee, ClTy, Convert, FloatCc, Inst, Val, Var};
use crate::codegen_cpu::machine;
use crate::codegen_cpu::state::St;
use crate::codegen_cpu::symbols::RtSym;
use crate::numbers::Numbers;
use vstd::prelude::*;

verus! {

/// Something that code does to the world: a call with what the stack holds
/// then, or a write to memory.
pub enum Deed {
    Call { callee: Callee, args: Seq<int>, stack: Map<(nat, int), int> },
    Write { at: int, value: int },
}

/// What code runs on: floating-point numbers, the answers to calls, memory, and
/// addresses.
pub struct Around {
    pub n: Numbers,
    /// The number with a bit pattern.
    pub bits: spec_fn(u32) -> int,
    /// What the last of some deeds, a call, is answered.
    pub answer: spec_fn(Seq<Deed>) -> int,
    /// What memory holds at an address after some deeds.
    pub memory: spec_fn(Seq<Deed>, int) -> int,
    /// Addresses of stack slots and of texts.
    pub slot: spec_fn(nat) -> int,
    pub text: spec_fn(nat) -> int,
}

/// A point of a run.
pub struct Line {
    pub vals: Map<nat, int>,
    pub vars: Map<Var, int>,
    pub passed: Seq<int>,
    pub stack: Map<(nat, int), int>,
    pub deeds: Seq<Deed>,
}

/// Result of an arithmetic instruction.
pub open spec fn arith_value(n: Numbers, op: Arith, ty: ClTy, a: int, b: int) -> Option<int> {
    match op {
        Arith::Fadd => Some((n.sum)(a, b)),
        Arith::Fsub => Some((n.difference)(a, b)),
        Arith::Fmul => Some((n.product)(a, b)),
        Arith::Fdiv => Some((n.quotient)(a, b)),
        _ => machine::arith_value(op, ty, a, b),
    }
}

/// Whether a comparison of floating-point numbers holds.
pub open spec fn holds(n: Numbers, fcc: FloatCc, a: int, b: int) -> bool {
    match fcc {
        FloatCc::Equal => (n.same)(a, b),
        FloatCc::NotEqual => !(n.same)(a, b),
        FloatCc::LessThan => (n.less)(a, b),
        FloatCc::LessThanOrEqual => (n.at_most)(a, b),
        FloatCc::GreaterThan => (n.less)(b, a),
        FloatCc::GreaterThanOrEqual => (n.at_most)(b, a),
    }
}

/// Result of a conversion.
pub open spec fn converted(n: Numbers, conv: Convert, ty: ClTy, a: int) -> Option<int> {
    match conv {
        Convert::Fneg => Some((n.negative)(a)),
        Convert::FcvtFromSint => Some((n.integer)(a)),
        _ => machine::converted(conv, ty, a),
    }
}

pub open spec fn flag(b: bool) -> int {
    if b {
        1
    } else {
        0
    }
}

impl Line {
    pub open spec fn has(self, v: Val) -> bool {
        self.vals.contains_key(v.0 as nat)
    }

    pub open spec fn val(self, v: Val) -> int {
        self.vals[v.0 as nat]
    }

    pub open spec fn has_all(self, vs: Seq<Val>) -> bool {
        forall|i: int| 0 <= i < vs.len() ==> self.has(#[trigger] vs[i])
    }

    pub open spec fn all(self, vs: Seq<Val>) -> Seq<int> {
        vs.map_values(|v: Val| self.val(v))
    }

    /// With the value of an instruction, if it has one.
    pub open spec fn gives(self, k: nat, x: Option<int>) -> Option<Line> {
        match x {
            Some(x) => Some(Line { vals: self.vals.insert(k, x), ..self }),
            None => None,
        }
    }

    /// Behind a call with some arguments.
    pub open spec fn calling(self, around: Around, k: nat, callee: Callee, args: Seq<int>) -> Line {
        let deeds = self.deeds.push(Deed::Call { callee, args, stack: self.stack });
        Line {
            vals: self.vals.insert(k, (around.answer)(deeds)),
            passed: Seq::empty(),
            deeds,
            ..self
        }
    }

    /// The instruction at a position.
    pub open spec fn step(self, around: Around, t: St, k: nat) -> Option<Line> {
        match t.code[k as int] {
            Inst::Slot { .. } | Inst::DeclareVar { .. } => Some(self),
            Inst::Iconst { ty, imm } => self.gives(k, Some(machine::wrap(ty, imm as int))),
            Inst::F32Const { bits } => self.gives(k, Some((around.bits)(bits))),
            Inst::F32FromInt { imm } => self.gives(k, Some((around.n.integer)(imm as int))),
            Inst::UseVar { var } => self.gives(
                k,
                if self.vars.contains_key(var) {
                    Some(self.vars[var])
                } else {
                    None
                },
            ),
            Inst::DefVar { var, val } => if self.has(val) {
                Some(Line { vars: self.vars.insert(var, self.val(val)), ..self })
            } else {
                None
            },
            Inst::Arith { op, lhs, rhs } => if self.has(lhs) && self.has(rhs) {
                self.gives(
                    k,
                    arith_value(
                        around.n,
                        op,
                        t.tys[k as int]->0,
                        self.val(lhs),
                        self.val(rhs),
                    ),
                )
            } else {
                None
            },
            Inst::IntCompare { icc, lhs, rhs } => if self.has(lhs) && self.has(rhs) {
                self.gives(k, Some(flag(machine::holds(icc, self.val(lhs), self.val(rhs)))))
            } else {
                None
            },
            Inst::FloatCompare { fcc, lhs, rhs } => if self.has(lhs) && self.has(rhs) {
                self.gives(k, Some(flag(holds(around.n, fcc, self.val(lhs), self.val(rhs)))))
            } else {
                None
            },
            Inst::Convert { conv, val } => if self.has(val) {
                self.gives(k, converted(around.n, conv, t.tys[k as int]->0, self.val(val)))
            } else {
                None
            },
            Inst::IaddImm { val, imm } => if self.has(val) {
                self.gives(k, Some(machine::wrap(t.tys[k as int]->0, self.val(val) + imm)))
            } else {
                None
            },
            Inst::Load { ty, base, offset } => if self.has(base) {
                self.gives(k, Some((around.memory)(self.deeds, self.val(base) + offset)))
            } else {
                None
            },
            Inst::Store { val, base, offset } => if self.has(val) && self.has(base) {
                Some(
                    Line {
                        deeds: self.deeds.push(
                            Deed::Write { at: self.val(base) + offset, value: self.val(val) },
                        ),
                        ..self
                    },
                )
            } else {
                None
            },
            Inst::StackStore { val, slot, offset } => if self.has(val) {
                Some(
                    Line {
                        stack: self.stack.insert((slot.0 as nat, offset as int), self.val(val)),
                        ..self
                    },
                )
            } else {
                None
            },
            Inst::StackAddr { slot } => self.gives(k, Some((around.slot)(slot.0 as nat))),
            Inst::CstrAddr { entry } => self.gives(k, Some((around.text)(entry as nat))),
            Inst::Arg { val } => if self.has(val) {
                Some(Line { passed: self.passed.push(self.val(val)), ..self })
            } else {
                None
            },
            Inst::Call { callee, argc } => if self.passed.len() == argc {
                Some(self.calling(around, k, callee, self.passed))
            } else {
                None
            },
            _ => None,
        }
    }

    /// The instructions from one position up to another.
    pub open spec fn run(self, around: Around, t: St, i: nat, j: nat) -> Option<Line>
        decreases j - i,
    {
        if j <= i {
            Some(self)
        } else {
            match self.run(around, t, i, (j - 1) as nat) {
                Some(l) => l.step(around, t, (j - 1) as nat),
                None => None,
            }
        }
    }

    /// Whether running what one state has behind another leads here.
    pub open spec fn leads(self, around: Around, from: St, to: St, end: Line) -> bool {
        &&& from.tys.len() == from.code.len()
        &&& from.grows_to(to)
        &&& self.run(around, to, from.code.len(), to.code.len()) == Some(end)
        &&& forall|p: nat|
            #![trigger end.vals.contains_key(p)]
            #![trigger end.vals[p]]
            p < from.code.len() && self.vals.contains_key(p) ==> end.vals.contains_key(p)
                && end.vals[p] == self.vals[p]
    }
}

/// What has been emitted runs the same when more is emitted.
pub proof fn run_same(l: Line, around: Around, a: St, b: St, i: nat, j: nat)
    requires
        a.grows_to(b),
        j <= a.code.len(),
    ensures
        l.run(around, b, i, j) == l.run(around, a, i, j),
    decreases j - i,
{
    if j > i {
        run_same(l, around, a, b, i, (j - 1) as nat);
        assert(b.code[j - 1] == a.code[j - 1]);
    }
}

/// A run in two parts.
pub proof fn run_parts(l: Line, around: Around, t: St, i: nat, m: nat, j: nat)
    requires
        i <= m <= j,
    ensures
        l.run(around, t, i, j) == match l.run(around, t, i, m) {
            Some(x) => x.run(around, t, m, j),
            None => None,
        },
    decreases j - m,
{
    if m < j {
        run_parts(l, around, t, i, m, (j - 1) as nat);
    }
}

/// Nothing emitted, nothing done.
pub proof fn leads_nowhere(l: Line, around: Around, st: St)
    requires
        st.tys.len() == st.code.len(),
    ensures
        l.leads(around, st, st, l),
{
}

/// Runs follow one another.
pub proof fn leads_on(l: Line, around: Around, a: St, b: St, m: Line, c: St, e: Line)
    requires
        l.leads(around, a, b, m),
        m.leads(around, b, c, e),
    ensures
        l.leads(around, a, c, e),
{
    crate::codegen_cpu::meaning::grows_on(a, b, c);
    run_same(l, around, b, c, a.code.len(), b.code.len());
    run_parts(l, around, c, a.code.len(), b.code.len(), c.code.len());
    assert forall|p: nat|
        #![trigger e.vals.contains_key(p)]
        #![trigger e.vals[p]]
        p < a.code.len() && l.vals.contains_key(p) implies e.vals.contains_key(p) && e.vals[p]
        == l.vals[p] by {
        assert(m.vals.contains_key(p) && m.vals[p] == l.vals[p]);
    }
}

/// One instruction.
pub proof fn leads_step(l: Line, around: Around, st: St, i: Inst)
    requires
        st.tys.len() == st.code.len(),
        l.step(around, st.emit(i), st.code.len()) is Some,
    ensures
        l.leads(around, st, st.emit(i), l.step(around, st.emit(i), st.code.len())->0),
{
    let t = st.emit(i);
    assert(st.grows_to(t));
    reveal_with_fuel(Line::run, 2);
    assert(t.code[st.code.len() as int] == i);
}

/// An instruction that gives a value.
pub proof fn leads_value(l: Line, around: Around, st: St, i: Inst, x: int) -> (e: Line)
    requires
        st.tys.len() == st.code.len(),
        st.code.len() < usize::MAX,
        l.step(around, st.emit(i), st.code.len()) == l.gives(st.code.len(), Some(x)),
    ensures
        l.leads(around, st, st.val(i).0, e),
        e == (Line { vals: l.vals.insert(st.code.len(), x), ..l }),
        e.has(st.val(i).1),
        e.val(st.val(i).1) == x,
{
    leads_step(l, around, st, i);
    Line { vals: l.vals.insert(st.code.len(), x), ..l }
}

/// Arguments are passed in order.
proof fn leads_args(l: Line, around: Around, st: St, vs: Seq<Val>, i: nat) -> (e: Line)
    requires
        st.tys.len() == st.code.len(),
        l.has_all(vs),
        i <= vs.len(),
        l.passed == l.all(vs).take(i as int),
    ensures
        l.leads(around, st, st.pass_args(vs, i), e),
        e == (Line { passed: l.all(vs), ..l }),
        st.pass_args(vs, i).code.len() == st.code.len() + vs.len() - i,
    decreases vs.len() - i,
{
    if i < vs.len() {
        let inst = Inst::Arg { val: vs[i as int] };
        let t = st.emit(inst);
        assert(l.has(vs[i as int]));
        assert(t.code[st.code.len() as int] == inst);
        leads_step(l, around, st, inst);
        let m = Line { passed: l.passed.push(l.val(vs[i as int])), ..l };
        assert(m.all(vs) =~= l.all(vs));
        assert(m.passed =~= l.all(vs).take(i as int + 1));
        assert forall|j: int| 0 <= j < vs.len() implies m.has(#[trigger] vs[j]) by {
            assert(l.has(vs[j]));
        }
        let e = leads_args(m, around, t, vs, i + 1);
        leads_on(l, around, st, t, m, st.pass_args(vs, i), e);
        e
    } else {
        assert(l.all(vs).take(i as int) =~= l.all(vs));
        leads_nowhere(l, around, st);
        l
    }
}

/// A call makes the call, with the values of its arguments in order, and gives
/// its answer.
pub proof fn leads_call(l: Line, around: Around, st: St, callee: Callee, vs: Seq<Val>) -> (e: Line)
    requires
        st.tys.len() == st.code.len(),
        l.has_all(vs),
        l.passed.len() == 0,
        st.code.len() + vs.len() + 1 <= usize::MAX,
    ensures
        l.leads(around, st, st.call(callee, vs).0, e),
        e == l.calling(
            around,
            (st.code.len() + vs.len()) as nat,
            callee,
            l.all(vs),
        ),
        e.has(st.call(callee, vs).1),
        e.val(st.call(callee, vs).1) == (around.answer)(e.deeds),
        e.passed.len() == 0,
        st.call(callee, vs).1.0 == st.code.len() + vs.len(),
        st.call(callee, vs).0.code.len() == st.code.len() + vs.len() + 1,
{
    assert(l.passed =~= l.all(vs).take(0));
    let m = leads_args(l, around, st, vs, 0);
    let s1 = st.pass_args(vs, 0);
    let inst = Inst::Call { callee, argc: vs.len() as usize };
    let t = s1.emit(inst);
    assert(t.code[s1.code.len() as int] == inst);
    assert(m.passed.len() == vs.len());
    leads_step(m, around, s1, inst);
    let e = m.calling(around, s1.code.len(), callee, m.passed);
    leads_on(l, around, st, s1, m, t, e);
    e
}

/// A call of the runtime, as a deed.
pub open spec fn asked(sym: RtSym, args: Seq<int>, stack: Map<(nat, int), int>) -> Deed {
    Deed::Call { callee: Callee::Runtime(sym), args, stack }
}

} // verus!
