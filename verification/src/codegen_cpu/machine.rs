//! How generated code runs, as far as it computes with integers, reads and
//! writes memory and calls the runtime. Floating point, stack slots and calls of
//! other functions are left out: code that needs them is stuck.

use crate::codegen_cpu::inst::{Arith, Blk, Callee, ClTy, Convert, Inst, IntCc, Val, Var};
use crate::codegen_cpu::state::St;
use crate::codegen_cpu::symbols::RtSym;
use crate::runtime::aggregate::RefCount;
use vstd::prelude::*;

verus! {

/// Number of values of an integer type.
pub open spec fn modulus(ty: ClTy) -> int {
    match ty {
        ClTy::I8 => 0x100,
        ClTy::I16 => 0x1_0000,
        ClTy::I32 => 0x1_0000_0000,
        _ => 0x1_0000_0000_0000_0000,
    }
}

/// The signed value of an integer type that is congruent to `x`.
pub open spec fn wrap(ty: ClTy, x: int) -> int {
    let r = x % modulus(ty);
    if r >= modulus(ty) / 2 {
        r - modulus(ty)
    } else {
        r
    }
}

/// Quotient rounded toward zero.
pub open spec fn quotient(a: int, b: int) -> int {
    let x = if a < 0 {
        -a
    } else {
        a
    };
    let y = if b < 0 {
        -b
    } else {
        b
    };
    if (a < 0) == (b < 0) {
        x / y
    } else {
        -(x / y)
    }
}

/// Signed division; there is no result where the divisor is zero or the
/// quotient does not fit.
pub open spec fn divided(ty: ClTy, a: int, b: int) -> Option<int> {
    if b == 0 || quotient(a, b) >= modulus(ty) / 2 {
        None
    } else {
        Some(quotient(a, b))
    }
}

/// Result of an arithmetic instruction on integers.
pub open spec fn arith_value(op: Arith, ty: ClTy, a: int, b: int) -> Option<int> {
    match op {
        Arith::Iadd => Some(wrap(ty, a + b)),
        Arith::Isub => Some(wrap(ty, a - b)),
        Arith::Imul => Some(wrap(ty, a * b)),
        Arith::Sdiv => divided(ty, a, b),
        Arith::Band => Some(((a as i64) & (b as i64)) as int),
        Arith::Bor => Some(((a as i64) | (b as i64)) as int),
        Arith::Bxor => Some(((a as i64) ^ (b as i64)) as int),
        _ => None,
    }
}

/// Whether a comparison holds.
pub open spec fn holds(icc: IntCc, a: int, b: int) -> bool {
    match icc {
        IntCc::Equal => a == b,
        IntCc::NotEqual => a != b,
        IntCc::SignedLessThan => a < b,
        IntCc::SignedLessThanOrEqual => a <= b,
        IntCc::SignedGreaterThan => a > b,
        IntCc::SignedGreaterThanOrEqual => a >= b,
    }
}

/// Result of a conversion of an integer.
pub open spec fn converted(conv: Convert, ty: ClTy, a: int) -> Option<int> {
    match conv {
        Convert::Ineg => Some(wrap(ty, -a)),
        Convert::Bmask8 => Some(
            if a != 0 {
                -1
            } else {
                0
            },
        ),
        Convert::Sextend64 => Some(a),
        Convert::Ireduce32 => Some(wrap(ClTy::I32, a)),
        _ => None,
    }
}

/// What a cell of memory holds: a value of a type, or the number of owners of
/// the box that begins there.
pub enum Cell {
    Value(ClTy, int),
    Count(RefCount),
}

impl Cell {
    /// The number that is read from the cell.
    pub open spec fn number(self) -> int {
        match self {
            Cell::Value(_, x) => x,
            Cell::Count(c) => wrap(ClTy::I64, c.count as int),
        }
    }
}

/// What memory holds, by address.
pub type Cells = Map<int, Cell>;

/// Whether a cell holds a value of a type.
pub open spec fn holds_value(cells: Cells, ty: ClTy, at: int) -> bool {
    cells.contains_key(at) && cells[at] == Cell::Value(ty, cells[at].number()) && !(ty is F32)
}

/// Whether a cell can be read with a type: the one with which it was written;
/// the number of owners is a word.
pub open spec fn holds_cell(cells: Cells, ty: ClTy, at: int) -> bool {
    holds_value(cells, ty, at) || (ty is I64 && cells.contains_key(at) && cells[at] is Count)
}

/// Whether the values that memory holds are still there.
pub open spec fn same_values(a: Cells, b: Cells) -> bool {
    forall|at: int|
        #![trigger b.contains_key(at)]
        #![trigger b[at]]
        a.contains_key(at) && a[at] is Value ==> b.contains_key(at) && b[at] == a[at]
}

/// The owners of a box, if it has any, are counted anew.
pub open spec fn recounted(cells: Cells, h: int, more: bool) -> Cells {
    match cells[h] {
        Cell::Count(c) => if cells.contains_key(h) {
            cells.insert(
                h,
                Cell::Count(
                    if more {
                        c.retained()
                    } else {
                        c.released()
                    },
                ),
            )
        } else {
            cells
        },
        _ => cells,
    }
}

/// A call of the runtime.
pub struct Act {
    pub sym: RtSym,
    pub args: Seq<int>,
}

impl Act {
    /// What a call does to memory: a new box has one owner, and owners are
    /// counted. A box that is handed back keeps what it held.
    pub open spec fn effect(self, cells: Cells, answer: int) -> Cells {
        match self.sym {
            RtSym::AggregateAlloc => cells.insert(
                answer,
                Cell::Count(RefCount { count: 1 }),
            ),
            RtSym::AggregateRetain => recounted(cells, self.args[0], true),
            RtSym::AggregateRelease | RtSym::ListRelease => recounted(cells, self.args[0], false),
            _ => cells,
        }
    }
}

/// What the runtime answers to the last of some calls.
pub type Answers = spec_fn(Seq<Act>) -> int;

/// Memory and the runtime: what cells hold, the calls so far, and what they
/// are answered.
pub struct Heap {
    pub cells: Cells,
    pub calls: Seq<Act>,
    pub answers: Answers,
}

impl Heap {
    /// Behind one more call.
    pub open spec fn call(self, act: Act) -> Heap {
        let calls = self.calls.push(act);
        Heap { cells: act.effect(self.cells, (self.answers)(calls)), calls, ..self }
    }

    /// Behind some more calls.
    pub open spec fn calling(self, acts: Seq<Act>) -> Heap
        decreases acts.len(),
    {
        if acts.len() == 0 {
            self
        } else {
            self.calling(acts.drop_last()).call(acts.last())
        }
    }

    /// Behind a write to a cell.
    pub open spec fn writing(self, at: int, ty: ClTy, x: int) -> Heap {
        Heap { cells: self.cells.insert(at, Cell::Value(ty, x)), ..self }
    }
}

pub proof fn calling_on(h: Heap, x: Seq<Act>, y: Seq<Act>)
    ensures
        h.calling(x + y) == h.calling(x).calling(y),
    decreases y.len(),
{
    if y.len() == 0 {
        assert(x + y =~= x);
    } else {
        calling_on(h, x, y.drop_last());
        assert((x + y).drop_last() =~= x + y.drop_last());
        assert((x + y).last() == y.last());
    }
}

pub proof fn calling_one(h: Heap, act: Act)
    ensures
        h.calling(seq![act]) == h.call(act),
{
    assert(seq![act].drop_last() =~= Seq::<Act>::empty());
    reveal_with_fuel(Heap::calling, 2);
}

/// The calls are remembered in order.
pub proof fn calls_are_remembered(h: Heap, acts: Seq<Act>)
    ensures
        h.calling(acts).calls == h.calls + acts,
        h.calling(acts).answers == h.answers,
    decreases acts.len(),
{
    if acts.len() > 0 {
        calls_are_remembered(h, acts.drop_last());
        assert(h.calling(acts).calls =~= h.calls + acts);
    } else {
        assert(h.calls + acts =~= h.calls);
    }
}

/// What a run has done so far: the contents of the variables, the arguments
/// passed since the last call, memory and the runtime.
pub struct Store {
    pub vars: Map<Var, int>,
    pub passed: Seq<int>,
    pub heap: Heap,
}

impl Store {
    pub open spec fn contains_key(self, v: Var) -> bool {
        self.vars.contains_key(v)
    }

    pub open spec fn insert(self, v: Var, x: int) -> Store {
        Store { vars: self.vars.insert(v, x), ..self }
    }

    pub open spec fn spec_index(self, v: Var) -> int {
        self.vars[v]
    }

    /// Behind a call of the runtime with the arguments passed for it.
    pub open spec fn called(self, sym: RtSym) -> Store {
        Store {
            passed: Seq::empty(),
            heap: self.heap.call(Act { sym, args: self.passed }),
            ..self
        }
    }
}

/// A point of a run: the position of the next instruction, the values computed
/// so far and what has been done.
pub struct Mach {
    pub pc: nat,
    pub vals: Map<nat, int>,
    pub store: Store,
}

/// What a function leaves behind: its result, what memory holds, and the calls
/// of the runtime.
pub struct Done {
    pub result: Option<int>,
    pub cells: Cells,
    pub calls: Seq<Act>,
}

/// What a run comes to.
pub enum Event {
    /// It goes on.
    Go(Mach),
    /// The function returns.
    Leave(Done),
    /// There is no next step.
    Stuck,
}

/// Code to run: instructions, the types of their values, and the arguments.
pub struct Prog {
    pub insts: Seq<Inst>,
    pub tys: Seq<Option<ClTy>>,
    pub args: Seq<int>,
}

impl Mach {
    /// Behind an instruction that computes `x`, if that exists.
    pub open spec fn gives(self, x: Option<int>) -> Event {
        match x {
            Some(x) => Event::Go(
                Mach { pc: self.pc + 1, vals: self.vals.insert(self.pc, x), ..self },
            ),
            None => Event::Stuck,
        }
    }

    /// Behind an instruction that computes nothing.
    pub open spec fn skips(self) -> Event {
        Event::Go(Mach { pc: self.pc + 1, ..self })
    }

    /// What is left behind where the function returns here.
    pub open spec fn leaves(self, result: Option<int>) -> Done {
        Done { result, cells: self.store.heap.cells, calls: self.store.heap.calls }
    }

    pub open spec fn has(self, v: Val) -> bool {
        self.vals.contains_key(v.0 as nat)
    }

    pub open spec fn val(self, v: Val) -> int {
        self.vals[v.0 as nat]
    }

    /// Whether a later point still has the values of the first `n` positions.
    pub open spec fn keeps(self, later: Mach, n: nat) -> bool {
        forall|p: nat|
            #![trigger later.vals.contains_key(p)]
            #![trigger later.vals[p]]
            p < n && self.vals.contains_key(p) ==> later.vals.contains_key(p) && later.vals[p]
                == self.vals[p]
    }
}

impl Prog {
    /// Whether a block begins at a position.
    pub open spec fn begins(self, b: Blk, k: nat) -> bool {
        k < self.insts.len() && self.insts[k as int] == (Inst::SwitchTo { target: b })
    }

    /// Whether no block begins twice.
    pub open spec fn single(self) -> bool {
        forall|b: Blk, j: nat, k: nat|
            #[trigger] self.begins(b, j) && #[trigger] self.begins(b, k) ==> j == k
    }

    /// Position of the first instruction of a block.
    pub open spec fn start(self, b: Blk) -> nat {
        (choose|k: nat| self.begins(b, k)) + 1
    }

    /// One instruction.
    pub open spec fn step(self, m: Mach) -> Event {
        if m.pc >= self.insts.len() {
            Event::Stuck
        } else {
            match self.insts[m.pc as int] {
                Inst::Block | Inst::Seal { .. } | Inst::SwitchTo { .. } | Inst::DeclareVar { .. } =>
                    m.skips(),
                Inst::Param { index, .. } => m.gives(
                    if index < self.args.len() {
                        Some(self.args[index as int])
                    } else {
                        None
                    },
                ),
                Inst::Iconst { ty, imm } => m.gives(Some(wrap(ty, imm as int))),
                Inst::UseVar { var } => m.gives(
                    if m.store.contains_key(var) {
                        Some(m.store[var])
                    } else {
                        None
                    },
                ),
                Inst::DefVar { var, val } => if m.has(val) {
                    Event::Go(
                        Mach { pc: m.pc + 1, store: m.store.insert(var, m.val(val)), ..m },
                    )
                } else {
                    Event::Stuck
                },
                Inst::Arith { op, lhs, rhs } => match self.tys[lhs.0 as int] {
                    Some(ty) => m.gives(
                        if m.has(lhs) && m.has(rhs) {
                            arith_value(op, ty, m.val(lhs), m.val(rhs))
                        } else {
                            None
                        },
                    ),
                    None => Event::Stuck,
                },
                Inst::IntCompare { icc, lhs, rhs } => m.gives(
                    if m.has(lhs) && m.has(rhs) {
                        Some(
                            if holds(icc, m.val(lhs), m.val(rhs)) {
                                1
                            } else {
                                0
                            },
                        )
                    } else {
                        None
                    },
                ),
                Inst::Convert { conv, val } => match self.tys[val.0 as int] {
                    Some(ty) => m.gives(
                        if m.has(val) {
                            converted(conv, ty, m.val(val))
                        } else {
                            None
                        },
                    ),
                    None => Event::Stuck,
                },
                Inst::IaddImm { val, imm } => match self.tys[val.0 as int] {
                    Some(ty) => m.gives(
                        if m.has(val) {
                            Some(wrap(ty, m.val(val) + imm))
                        } else {
                            None
                        },
                    ),
                    None => Event::Stuck,
                },
                Inst::Load { ty, base, offset } => m.gives(
                    if m.has(base) && holds_cell(m.store.heap.cells, ty, m.val(base) + offset) {
                        Some(m.store.heap.cells[m.val(base) + offset].number())
                    } else {
                        None
                    },
                ),
                Inst::Store { val, base, offset } => match self.tys[val.0 as int] {
                    Some(ty) => if m.has(val) && m.has(base) {
                        Event::Go(
                            Mach {
                                pc: m.pc + 1,
                                store: Store {
                                    heap: m.store.heap.writing(
                                        m.val(base) + offset,
                                        ty,
                                        m.val(val),
                                    ),
                                    ..m.store
                                },
                                ..m
                            },
                        )
                    } else {
                        Event::Stuck
                    },
                    None => Event::Stuck,
                },
                Inst::Arg { val } => if m.has(val) {
                    Event::Go(
                        Mach {
                            pc: m.pc + 1,
                            store: Store { passed: m.store.passed.push(m.val(val)), ..m.store },
                            ..m
                        },
                    )
                } else {
                    Event::Stuck
                },
                Inst::Call { callee: Callee::Runtime(sym), argc } => if m.store.passed.len()
                    == argc {
                    let store = m.store.called(sym);
                    Event::Go(
                        Mach {
                            pc: m.pc + 1,
                            vals: if sym.ret() is Some && !(sym.ret() == Some(ClTy::F32)) {
                                m.vals.insert(m.pc, (store.heap.answers)(store.heap.calls))
                            } else {
                                m.vals
                            },
                            store,
                        },
                    )
                } else {
                    Event::Stuck
                },
                Inst::Jump { target } => Event::Go(Mach { pc: self.start(target), ..m }),
                Inst::Brif { cond, then_blk, else_blk } => if m.has(cond) {
                    Event::Go(
                        Mach {
                            pc: self.start(
                                if m.val(cond) != 0 {
                                    then_blk
                                } else {
                                    else_blk
                                },
                            ),
                            ..m
                        },
                    )
                } else {
                    Event::Stuck
                },
                Inst::Return { val } => if m.has(val) {
                    Event::Leave(m.leaves(Some(m.val(val))))
                } else {
                    Event::Stuck
                },
                Inst::ReturnVoid => Event::Leave(m.leaves(None)),
                _ => Event::Stuck,
            }
        }
    }

    /// What `n` instructions come to.
    pub open spec fn run(self, m: Mach, n: nat) -> Event
        decreases n,
    {
        if n == 0 {
            Event::Go(m)
        } else {
            match self.step(m) {
                Event::Go(next) => self.run(next, (n - 1) as nat),
                other => other,
            }
        }
    }

    /// Whether a run comes to an event.
    pub open spec fn reaches(self, m: Mach, e: Event) -> bool {
        exists|n: nat| #[trigger] self.run(m, n) == e
    }

    /// Whether the code contains what a lowering has emitted.
    pub open spec fn contains(self, st: St) -> bool {
        &&& self.insts.len() <= usize::MAX
        &&& st.tys.len() == st.code.len()
        &&& st.code.len() <= self.insts.len()
        &&& forall|i: int|
            0 <= i < st.code.len() ==> #[trigger] self.insts[i] == st.code[i] && self.tys[i]
                == st.tys[i]
    }
}

/// A run can be continued.
pub proof fn reach_on(p: Prog, a: Mach, b: Mach, e: Event)
    requires
        p.reaches(a, Event::Go(b)),
        p.reaches(b, e),
    ensures
        p.reaches(a, e),
{
    let n = choose|n: nat| #[trigger] p.run(a, n) == Event::Go(b);
    let k = choose|k: nat| #[trigger] p.run(b, k) == e;
    run_more(p, a, n, k);
    assert(p.run(a, n + k) == e);
}

/// A run of `n + k` instructions, in two parts.
pub proof fn run_more(p: Prog, a: Mach, n: nat, k: nat)
    ensures
        p.run(a, n + k) == match p.run(a, n) {
            Event::Go(b) => p.run(b, k),
            other => other,
        },
    decreases n,
{
    if n > 0 {
        match p.step(a) {
            Event::Go(next) => {
                run_more(p, next, (n - 1) as nat, k);
            },
            _ => {},
        }
    }
}

/// One step is a run, and so is none.
pub proof fn reach_step(p: Prog, m: Mach)
    ensures
        p.reaches(m, p.step(m)),
        p.reaches(m, Event::Go(m)),
{
    reveal_with_fuel(Prog::run, 2);
    assert(p.run(m, 1) == p.step(m));
    assert(p.run(m, 0) == Event::Go(m));
}

/// A run ends in one way at most.
pub proof fn runs_return_once(p: Prog, m: Mach, a: Done, b: Done)
    requires
        p.reaches(m, Event::Leave(a)),
        p.reaches(m, Event::Leave(b)),
    ensures
        a == b,
{
    let n = choose|n: nat| #[trigger] p.run(m, n) == Event::Leave(a);
    let k = choose|k: nat| #[trigger] p.run(m, k) == Event::Leave(b);
    if n <= k {
        run_more(p, m, n, (k - n) as nat);
    } else {
        run_more(p, m, k, (n - k) as nat);
    }
}

/// A block that begins at a position begins nowhere else.
pub proof fn start_of(p: Prog, b: Blk, k: nat)
    requires
        p.single(),
        p.begins(b, k),
    ensures
        p.start(b) == k + 1,
{
}

} // verus!
