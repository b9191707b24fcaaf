//! That the code which gives up values makes the calls that it should.

use crate::codegen_cpu::inst::{Arith, Blk, Callee, ClTy, Inst, IntCc, Val, Var};
use crate::codegen_cpu::machine;
use crate::codegen_cpu::machine::{Act, Cells, Event, Mach, Prog, Store};
use crate::codegen_cpu::meaning;
use crate::codegen_cpu::release_layout;
use crate::codegen_cpu::releases;
use crate::codegen_cpu::running;
use crate::codegen_cpu::state;
use crate::codegen_cpu::state::St;
use crate::codegen_cpu::symbols::RtSym;
use crate::typed::{DropVariant, ResolvedTy};
use vstd::prelude::*;

verus! {

impl Mach {
    /// Whether a later point has made some calls, and keeps the values in
    /// memory and the values and variables of the first `n` positions.
    pub open spec fn carries(self, later: Mach, n: nat, acts: Seq<Act>) -> bool {
        &&& self.keeps(later, n)
        &&& forall|v: Var|
            #![trigger later.store.vars.contains_key(v)]
            #![trigger later.store.vars[v]]
            v.0 < n && self.store.vars.contains_key(v) ==> later.store.vars.contains_key(v)
                && later.store.vars[v] == self.store.vars[v]
        &&& later.store.passed.len() == 0
        &&& later.store.heap == self.store.heap.calling(acts)
        &&& machine::same_values(self.store.heap.cells, later.store.heap.cells)
    }
}

proof fn same_on(a: Cells, b: Cells, c: Cells)
    requires
        machine::same_values(a, b),
        machine::same_values(b, c),
    ensures
        machine::same_values(a, c),
{
    assert forall|at: int|
        #![trigger c.contains_key(at)]
        #![trigger c[at]]
        a.contains_key(at) && a[at] is Value implies c.contains_key(at) && c[at] == a[at] by {
        assert(b.contains_key(at) && b[at] == a[at]);
    }
}

pub proof fn carries_on(a: Mach, b: Mach, c: Mach, n: nat, k: nat, x: Seq<Act>, y: Seq<Act>)
    requires
        a.carries(b, n, x),
        b.carries(c, k, y),
        n <= k,
    ensures
        a.carries(c, n, x + y),
{
    machine::calling_on(a.store.heap, x, y);
    same_on(a.store.heap.cells, b.store.heap.cells, c.store.heap.cells);
    assert forall|q: nat|
        #![trigger c.vals.contains_key(q)]
        #![trigger c.vals[q]]
        q < n && a.vals.contains_key(q) implies c.vals.contains_key(q) && c.vals[q] == a.vals[q] by {
        assert(b.vals.contains_key(q));
        assert(b.vals[q] == a.vals[q]);
    }
    assert forall|v: Var|
        #![trigger c.store.vars.contains_key(v)]
        #![trigger c.store.vars[v]]
        v.0 < n && a.store.vars.contains_key(v) implies c.store.vars.contains_key(v)
        && c.store.vars[v] == a.store.vars[v] by {
        assert(b.store.vars.contains_key(v));
        assert(b.store.vars[v] == a.store.vars[v]);
    }
}

/// A run that makes no call.
pub proof fn carries_none(a: Mach, b: Mach, n: nat)
    requires
        a.keeps(b, n),
        b.store == a.store,
        a.store.passed.len() == 0,
    ensures
        a.carries(b, n, Seq::empty()),
{
}

/// As [`carries_on`], where the first part makes no call.
pub proof fn carries_then(a: Mach, b: Mach, c: Mach, n: nat, k: nat, y: Seq<Act>)
    requires
        a.keeps(b, n),
        b.store == a.store,
        a.store.passed.len() == 0,
        b.carries(c, k, y),
        n <= k,
    ensures
        a.carries(c, n, y),
{
    carries_none(a, b, n);
    carries_on(a, b, c, n, k, Seq::empty(), y);
    assert(Seq::<Act>::empty() + y =~= y);
}

/// A call of the runtime on one value.
pub proof fn act_runs(p: Prog, m: Mach, mid: Mach, st: St, sym: RtSym, v: Val) -> (e: Mach)
    requires
        p.reaches(m, Event::Go(mid)),
        st.tys.len() == st.code.len(),
        p.contains(st.act(sym, v)),
        mid.pc == st.code.len(),
        mid.store.passed.len() == 0,
        mid.has(v),
        !(sym is AggregateAlloc),
    ensures
        p.reaches(m, Event::Go(e)),
        e.pc == st.act(sym, v).code.len(),
        mid.carries(e, st.code.len(), seq![releases::act(sym, mid.val(v))]),
{
    release_layout::act_unfolds(st, sym, v);
    let t = st.act(sym, v);
    let call = Inst::Call { callee: Callee::Runtime(sym), argc: 1 };
    running::step_on(p, m, mid, t, Inst::Arg { val: v });
    let m1 = Mach {
        pc: mid.pc + 1,
        store: Store { passed: mid.store.passed.push(mid.val(v)), ..mid.store },
        ..mid
    };
    assert(p.step(mid) == Event::Go(m1));
    assert(t.code[m1.pc as int] == call);
    running::step_on(p, m, m1, t, call);
    let store = m1.store.called(sym);
    let e = Mach {
        pc: m1.pc + 1,
        vals: if sym.ret() is Some && !(sym.ret() == Some(ClTy::F32)) {
            m1.vals.insert(m1.pc, (store.heap.answers)(store.heap.calls))
        } else {
            m1.vals
        },
        store,
    };
    assert(p.step(m1) == Event::Go(e));
    assert(m1.store.passed =~= seq![mid.val(v)]);
    machine::calling_one(mid.store.heap, releases::act(sym, mid.val(v)));
    e
}

/// A jump to a block whose start is known.
pub proof fn jump_runs(p: Prog, m: Mach, mid: Mach, st: St, target: Blk) -> (e: Mach)
    requires
        p.reaches(m, Event::Go(mid)),
        p.contains(st.jump(target)),
        mid.pc == st.code.len(),
    ensures
        p.reaches(m, Event::Go(e)),
        e == (Mach { pc: p.start(target), ..mid }),
{
    let t = st.jump(target);
    running::step_on(p, m, mid, t, Inst::Jump { target });
    let e = Mach { pc: p.start(target), ..mid };
    assert(p.step(mid) == Event::Go(e));
    e
}

/// A block that is already current is sealed.
pub proof fn seal_runs(p: Prog, m: Mach, mid: Mach, st: St, target: Blk) -> (e: Mach)
    requires
        p.reaches(m, Event::Go(mid)),
        p.contains(st.seal(target)),
        mid.pc == st.code.len(),
    ensures
        p.reaches(m, Event::Go(e)),
        e == (Mach { pc: mid.pc + 1, ..mid }),
{
    let t = st.seal(target);
    running::step_on(p, m, mid, t, Inst::Seal { target });
    let e = Mach { pc: mid.pc + 1, ..mid };
    assert(p.step(mid) == Event::Go(e));
    e
}

/// A value is read from memory.
pub proof fn load_runs(p: Prog, m: Mach, mid: Mach, st: St, ty: ClTy, base: Val, offset: i32) -> (e: Mach)
    requires
        p.reaches(m, Event::Go(mid)),
        p.contains(st.load(ty, base, offset).0),
        mid.pc == st.code.len(),
        mid.has(base),
        machine::holds_cell(mid.store.heap.cells, ty, mid.val(base) + offset),
    ensures
        p.reaches(m, Event::Go(e)),
        e == (Mach {
            pc: mid.pc + 1,
            vals: mid.vals.insert(mid.pc, mid.store.heap.cells[mid.val(base) + offset].number()),
            ..mid
        }),
        e.has(st.load(ty, base, offset).1),
        e.val(st.load(ty, base, offset).1) == mid.store.heap.cells[mid.val(base) + offset].number(),
{
    let t = st.load(ty, base, offset).0;
    running::step_on(p, m, mid, t, Inst::Load { ty, base, offset });
    let e = Mach {
        pc: mid.pc + 1,
        vals: mid.vals.insert(mid.pc, mid.store.heap.cells[mid.val(base) + offset].number()),
        ..mid
    };
    assert(p.step(mid) == Event::Go(e));
    e
}

proof fn blocks_code(st: St, n: nat, j: nat)
    requires
        j < n,
    ensures
        st.blocks(n).code.len() == st.code.len() + n,
        st.blocks(n).code[(st.code.len() + j) as int] == Inst::Block,
    decreases n,
{
    if j < n - 1 {
        blocks_code(st, (n - 1) as nat, j);
    } else {
        blocks_len(st, (n - 1) as nat);
    }
}

proof fn blocks_len(st: St, n: nat)
    ensures
        st.blocks(n).code.len() == st.code.len() + n,
    decreases n,
{
    if n > 0 {
        blocks_len(st, (n - 1) as nat);
    }
}

/// Declarations of blocks are passed over.
proof fn blocks_run(p: Prog, m: Mach, mid: Mach, st: St, n: nat, j: nat) -> (e: Mach)
    requires
        p.reaches(m, Event::Go(mid)),
        p.contains(st.blocks(n)),
        j <= n,
        mid.pc == st.code.len() + j,
    ensures
        p.reaches(m, Event::Go(e)),
        e == (Mach { pc: st.code.len() + n, ..mid }),
    decreases n - j,
{
    if j < n {
        blocks_code(st, n, j);
        running::step_on(p, m, mid, st.blocks(n), Inst::Block);
        let next = Mach { pc: mid.pc + 1, ..mid };
        assert(p.step(mid) == Event::Go(next));
        blocks_run(p, m, next, st, n, j + 1)
    } else {
        mid
    }
}

/// The test of an arm of a switch: to the body of the arm where the tag is the
/// expected one, else to the next test.
pub proof fn arm_tested(
    p: Prog,
    m: Mach,
    st: St,
    t: St,
    tag: Val,
    expected: u32,
    first: nat,
    i: nat,
) -> (e: Mach)
    requires
        p.single(),
        st.tys.len() == st.code.len(),
        p.contains(t),
        st.open_arm(tag, expected, first, i).grows_to(t),
        m.pc == p.start(Blk((first + i) as usize)),
        m.has(tag),
        tag.0 < st.code.len(),
    ensures
        p.reaches(m, Event::Go(e)),
        e.store == m.store,
        m.keeps(e, st.code.len()),
        if m.val(tag) == machine::wrap(ClTy::I32, expected as int) {
            e.pc == st.open_arm(tag, expected, first, i).code.len()
        } else {
            e.pc == p.start(Blk((first + i + 1) as usize))
        },
{
    let test = Blk((first + i) as usize);
    let next = Blk((first + i + 1) as usize);
    let (a0, body) = st.blk();
    let a1 = a0.switch_to(test);
    let a2 = a1.seal(test);
    let (a3, want) = a2.iconst(ClTy::I32, expected as int);
    let (a4, hit) = a3.int_test(IntCc::Equal, tag, want);
    let a5 = a4.brif(hit, body, next);
    let a6 = a5.switch_to(body);
    let a = a6.seal(body);
    assert(a == st.open_arm(tag, expected, first, i));
    assert(a1.grows_to(a) && a6.grows_to(a));
    meaning::grows_on(a1, a, t);
    meaning::grows_on(a6, a, t);
    meaning::contains_on(p, a, t);
    running::start_behind(p, a0, test, t);
    running::start_behind(p, a5, body, t);
    machine::reach_step(p, m);
    let imm = expected as int as i64;
    running::step_on(p, m, m, a, Inst::Seal { target: test });
    let m1 = Mach { pc: m.pc + 1, ..m };
    assert(p.step(m) == Event::Go(m1));
    running::step_on(p, m, m1, a, Inst::Iconst { ty: ClTy::I32, imm });
    let x = machine::wrap(ClTy::I32, imm as int);
    let m2 = Mach { pc: m1.pc + 1, vals: m1.vals.insert(m1.pc, x), ..m1 };
    assert(p.step(m1) == Event::Go(m2));
    running::step_on(p, m, m2, a, Inst::IntCompare { icc: IntCc::Equal, lhs: tag, rhs: want });
    let y: int = if m.val(tag) == x {
        1
    } else {
        0
    };
    let m3 = Mach { pc: m2.pc + 1, vals: m2.vals.insert(m2.pc, y), ..m2 };
    assert(m2.has(want) && m2.val(want) == x);
    assert(m2.has(tag) && m2.val(tag) == m.val(tag));
    assert(p.step(m2) == Event::Go(m3));
    let brif = Inst::Brif { cond: hit, then_blk: body, else_blk: next };
    running::step_on(p, m, m3, a, brif);
    assert(m3.has(hit) && m3.val(hit) == y);
    let m4 = Mach {
        pc: p.start(
            if y != 0 {
                body
            } else {
                next
            },
        ),
        ..m3
    };
    assert(p.step(m3) == Event::Go(m4));
    if y != 0 {
        seal_runs(p, m, m4, a6, body)
    } else {
        m4
    }
}

/// Giving up a tensor or a box, given its handle.
proof fn handle_runs(p: Prog, c0: Cells, st: St, v: Val, ty: ResolvedTy, m: Mach) -> (e: Mach)
    requires
        machine::same_values(c0, m.store.heap.cells),
        p.single(),
        ty.owns_in_slot(),
        st.tys.len() == st.code.len(),
        p.contains(st.drop_element(v, ty)),
        m.pc == st.code.len(),
        m.store.passed.len() == 0,
        m.has(v),
        v.0 < st.code.len(),
        ty.is_held(c0, m.val(v)),
    ensures
        p.reaches(m, Event::Go(e)),
        e.pc == st.drop_element(v, ty).code.len(),
        m.carries(e, st.code.len(), ty.gives_up(c0, m.val(v))),
    decreases ty, 0nat, 0nat,
{
    machine::reach_step(p, m);
    let t = st.drop_element(v, ty);
    let acts = ty.gives_up(c0, m.val(v));
    match ty {
        ResolvedTy::Tensor { dtype } => act_runs(p, m, m, st, RtSym::TensorRelease, v),
        ResolvedTy::Struct { name, fields } => {
            release_layout::slots_laid_out(st, v, 8, fields@, 0);
            let a = st.drop_slots(v, 8, fields@, 0);
            release_layout::adds_act(a, RtSym::AggregateRelease, v);
            meaning::contains_on(p, a, t);
            let m1 = slots_run(p, c0, st, v, 8, fields@, 0, m);
            let e = act_runs(p, m, m1, a, RtSym::AggregateRelease, v);
            let first = releases::slots_given_up(c0, m.val(v), 8, fields@, 0);
            let last = seq![releases::act(RtSym::AggregateRelease, m.val(v))];
            carries_on(m, m1, e, st.code.len(), a.code.len(), first, last);
            assert(first + last =~= acts);
            e
        },
        ResolvedTy::Enum { name, variants } => enum_runs(p, c0, st, v, variants@, m),
        _ => m,
    }
}

/// Giving up what a slot holds.
pub proof fn field_runs(p: Prog, c0: Cells, st: St, base: Val, offset: i32, ty: ResolvedTy, m: Mach) -> (e: Mach)
    requires
        machine::same_values(c0, m.store.heap.cells),
        p.single(),
        st.tys.len() == st.code.len(),
        p.contains(st.drop_field(base, offset, ty)),
        m.pc == st.code.len(),
        m.store.passed.len() == 0,
        m.has(base),
        base.0 < st.code.len(),
        ty.slot_held(c0, m.val(base) + offset),
    ensures
        p.reaches(m, Event::Go(e)),
        e.pc == st.drop_field(base, offset, ty).code.len(),
        m.carries(e, st.code.len(), ty.slot_gives_up(c0, m.val(base) + offset)),
    decreases ty, 1nat, 0nat,
{
    machine::reach_step(p, m);
    let t = st.drop_field(base, offset, ty);
    if ty.owns_in_slot() {
        let (a, nested) = st.load(ClTy::I64, base, offset);
        assert(t == a.drop_element(nested, ty));
        release_layout::element_laid_out(a, nested, ty);
        meaning::contains_on(p, a, t);
        let m1 = load_runs(p, m, m, st, ClTy::I64, base, offset);
        let e = handle_runs(p, c0, a, nested, ty, m1);
        machine::reach_on(p, m, m1, Event::Go(e));
        carries_then(
            m,
            m1,
            e,
            st.code.len(),
            a.code.len(),
            ty.slot_gives_up(c0, m.val(base) + offset),
        );
        e
    } else {
        carries_none(m, m, st.code.len());
        m
    }
}

/// Giving up the slots of a box from position `i` on.
proof fn slots_run(
    p: Prog,
    c0: Cells,
    st: St,
    ptr: Val,
    base: i32,
    fields: Seq<(String, ResolvedTy)>,
    i: nat,
    m: Mach,
) -> (e: Mach)
    requires
        machine::same_values(c0, m.store.heap.cells),
        p.single(),
        st.tys.len() == st.code.len(),
        p.contains(st.drop_slots(ptr, base, fields, i)),
        m.pc == st.code.len(),
        m.store.passed.len() == 0,
        m.has(ptr),
        ptr.0 < st.code.len(),
        releases::slots_held(c0, m.val(ptr), base, fields, i),
    ensures
        p.reaches(m, Event::Go(e)),
        e.pc == st.drop_slots(ptr, base, fields, i).code.len(),
        m.carries(
            e,
            st.code.len(),
            releases::slots_given_up(c0, m.val(ptr), base, fields, i),
        ),
        e.has(ptr),
        e.val(ptr) == m.val(ptr),
    decreases fields, fields.len() - i, 0nat,
{
    machine::reach_step(p, m);
    if i < fields.len() {
        let ty = fields[i as int].1;
        let offset = state::slot_offset(base, i);
        let t = st.drop_slots(ptr, base, fields, i);
        release_layout::field_laid_out(st, ptr, offset, ty);
        let a = st.drop_field(ptr, offset, ty);
        release_layout::slots_laid_out(a, ptr, base, fields, i + 1);
        meaning::contains_on(p, a, t);
        let m1 = field_runs(p, c0, st, ptr, offset, ty, m);
        assert(m1.has(ptr) && m1.val(ptr) == m.val(ptr));
        let e = slots_run(p, c0, a, ptr, base, fields, i + 1, m1);
        machine::reach_on(p, m, m1, Event::Go(e));
        let x = ty.slot_gives_up(c0, m.val(ptr) + offset);
        let y = releases::slots_given_up(c0, m.val(ptr), base, fields, i + 1);
        carries_on(m, m1, e, st.code.len(), a.code.len(), x, y);
        e
    } else {
        carries_none(m, m, st.code.len());
        m
    }
}

/// Giving up an enum.
proof fn enum_runs(
    p: Prog,
    c0: Cells,
    st: St,
    ptr: Val,
    variants: Seq<(String, Vec<(String, ResolvedTy)>)>,
    m: Mach,
) -> (e: Mach)
    requires
        machine::same_values(c0, m.store.heap.cells),
        p.single(),
        st.tys.len() == st.code.len(),
        p.contains(st.drop_enum(ptr, variants)),
        m.pc == st.code.len(),
        m.store.passed.len() == 0,
        m.has(ptr),
        ptr.0 < st.code.len(),
        releases::enum_held(c0, m.val(ptr), variants),
    ensures
        p.reaches(m, Event::Go(e)),
        e.pc == st.drop_enum(ptr, variants).code.len(),
        m.carries(
            e,
            st.code.len(),
            releases::enum_given_up(c0, m.val(ptr), variants),
        ),
    decreases variants, variants.len() + 1, 0nat,
{
    let n = variants.len();
    let cells = c0;
    let h = m.val(ptr);
    release_layout::enum_laid_out(st, ptr, variants);
    let (a, tag) = st.load(ClTy::I32, ptr, 8);
    let (b, merge) = a.blk();
    let first = b.code.len();
    let (c, unreachable) = b.blocks(n).blk();
    let t = st.drop_enum(ptr, variants);
    let last = seq![releases::act(RtSym::AggregateRelease, h)];
    if n > 0 {
        let d = c.jump(Blk(first as usize));
        let f = d.drop_arms(ptr, tag, merge, first, variants, 0);
        meaning::grows_on(d, f, t);
        meaning::grows_on(c, d, t);
        meaning::contains_on(p, c, t);
        meaning::contains_on(p, d, t);
        meaning::contains_on(p, f, t);
        let m1 = switch_entered(p, c0, st, ptr, n, m);
        let m2 = jump_runs(p, m, m1, c, Blk(first as usize));
        assert(m2.has(tag) && m2.val(tag) == releases::word(cells, h + 8));
        assert(m2.has(ptr) && m2.val(ptr) == h);
        let m3 = arms_run(p, c0, d, ptr, tag, merge, first, variants, 0, m2);
        machine::reach_on(p, m, m2, Event::Go(m3));
        let x = releases::slots_given_up(
            cells,
            h,
            16,
            variants[releases::word(cells, h + 8)].1@,
            0,
        );
        assert(m3.has(ptr) && m3.val(ptr) == h);
        let e = switch_left(p, m, m3, f, unreachable, merge, ptr);
        carries_then(m, m2, m3, st.code.len(), d.code.len(), x);
        carries_on(m, m3, e, st.code.len(), f.code.len(), x, last);
        assert(x + last =~= releases::enum_given_up(cells, h, variants));
        e
    } else {
        release_layout::adds_act(c, RtSym::AggregateRelease, ptr);
        meaning::contains_on(p, c, t);
        let m1 = switch_entered(p, c0, st, ptr, n, m);
        let e = act_runs(p, m, m1, c, RtSym::AggregateRelease, ptr);
        carries_then(m, m1, e, st.code.len(), c.code.len(), last);
        assert(last =~= releases::enum_given_up(cells, h, variants));
        e
    }
}

/// The tag is read and the blocks of a switch are declared.
pub proof fn switch_entered(p: Prog, c0: Cells, st: St, ptr: Val, n: nat, m: Mach) -> (e: Mach)
    requires
        machine::same_values(c0, m.store.heap.cells),
        st.tys.len() == st.code.len(),
        p.contains(st.load(ClTy::I32, ptr, 8).0.blk().0.blocks(n).blk().0),
        m.pc == st.code.len(),
        m.has(ptr),
        ptr.0 < st.code.len(),
        machine::holds_cell(c0, ClTy::I32, m.val(ptr) + 8),
    ensures
        p.reaches(m, Event::Go(e)),
        e.pc == st.load(ClTy::I32, ptr, 8).0.blk().0.blocks(n).blk().0.code.len(),
        e.store == m.store,
        m.keeps(e, st.code.len()),
        e.has(st.load(ClTy::I32, ptr, 8).1),
        e.val(st.load(ClTy::I32, ptr, 8).1) == releases::word(c0, m.val(ptr) + 8),
        e.has(ptr),
        e.val(ptr) == m.val(ptr),
{
    let (a, tag) = st.load(ClTy::I32, ptr, 8);
    let (b, merge) = a.blk();
    let r = b.blocks(n);
    let (c, unreachable) = r.blk();
    blocks_grow(b, n);
    assert(r.grows_to(c));
    meaning::contains_on(p, r, c);
    meaning::contains_on(p, b, r);
    assert(a.grows_to(b));
    meaning::contains_on(p, a, b);
    machine::reach_step(p, m);
    let m1 = load_runs(p, m, m, st, ClTy::I32, ptr, 8);
    running::step_on(p, m, m1, b, Inst::Block);
    let m2 = Mach { pc: m1.pc + 1, ..m1 };
    assert(p.step(m1) == Event::Go(m2));
    let m3 = blocks_run(p, m, m2, b, n, 0);
    blocks_len(b, n);
    running::step_on(p, m, m3, c, Inst::Block);
    let m4 = Mach { pc: m3.pc + 1, ..m3 };
    assert(p.step(m3) == Event::Go(m4));
    m4
}

proof fn blocks_grow(st: St, n: nat)
    requires
        st.tys.len() == st.code.len(),
    ensures
        st.grows_to(st.blocks(n)),
    decreases n,
{
    if n > 0 {
        blocks_grow(st, (n - 1) as nat);
        let b = st.blocks((n - 1) as nat);
        assert(b.grows_to(st.blocks(n)));
        meaning::grows_on(st, b, st.blocks(n));
    }
}

/// Behind the arms of a switch the box is handed back.
proof fn switch_left(p: Prog, m: Mach, mid: Mach, st: St, unreachable: Blk, merge: Blk, ptr: Val) -> (e:
    Mach)
    requires
        p.single(),
        st.tys.len() == st.code.len(),
        p.reaches(m, Event::Go(mid)),
        p.contains(
            st.close_arms(unreachable).enter(merge).act(RtSym::AggregateRelease, ptr),
        ),
        mid.pc == p.start(merge),
        mid.store.passed.len() == 0,
        mid.has(ptr),
        ptr.0 < st.code.len(),
    ensures
        p.reaches(m, Event::Go(e)),
        e.pc == st.close_arms(unreachable).enter(merge).act(
            RtSym::AggregateRelease,
            ptr,
        ).code.len(),
        mid.carries(
            e,
            st.code.len(),
            seq![releases::act(RtSym::AggregateRelease, mid.val(ptr))],
        ),
{
    let a = st.close_arms(unreachable);
    let b = a.switch_to(merge);
    let c = b.seal(merge);
    let t = c.act(RtSym::AggregateRelease, ptr);
    release_layout::adds_act(c, RtSym::AggregateRelease, ptr);
    assert(b.grows_to(c));
    meaning::grows_on(b, c, t);
    meaning::contains_on(p, c, t);
    running::start_behind(p, a, merge, t);
    let m1 = seal_runs(p, m, mid, b, merge);
    let e = act_runs(p, m, m1, c, RtSym::AggregateRelease, ptr);
    carries_then(
        mid,
        m1,
        e,
        st.code.len(),
        c.code.len(),
        seq![releases::act(RtSym::AggregateRelease, mid.val(ptr))],
    );
    e
}

/// The arms of a switch from position `i` on give up the slots of the variant
/// that the tag names.
proof fn arms_run(
    p: Prog,
    c0: Cells,
    st: St,
    ptr: Val,
    tag: Val,
    merge: Blk,
    first: nat,
    variants: Seq<(String, Vec<(String, ResolvedTy)>)>,
    i: nat,
    m: Mach,
) -> (e: Mach)
    requires
        machine::same_values(c0, m.store.heap.cells),
        p.single(),
        st.tys.len() == st.code.len(),
        p.contains(st.drop_arms(ptr, tag, merge, first, variants, i)),
        m.pc == p.start(Blk((first + i) as usize)),
        m.store.passed.len() == 0,
        m.has(ptr),
        m.has(tag),
        ptr.0 < st.code.len(),
        tag.0 < st.code.len(),
        i <= m.val(tag) < variants.len() <= i32::MAX,
        releases::slots_held(c0, m.val(ptr), 16, variants[m.val(tag)].1@, 0),
    ensures
        p.reaches(m, Event::Go(e)),
        e.pc == p.start(merge),
        m.carries(
            e,
            st.code.len(),
            releases::slots_given_up(c0, m.val(ptr), 16, variants[m.val(tag)].1@, 0),
        ),
    decreases variants, variants.len() - i, 0nat,
{
    let t = st.drop_arms(ptr, tag, merge, first, variants, i);
    let k = m.val(tag);
    let acts = releases::slots_given_up(c0, m.val(ptr), 16, variants[k].1@, 0);
    let a = st.open_arm(tag, i as u32, first, i);
    assert(st.grows_to(a));
    release_layout::slots_laid_out(a, ptr, 16, variants[i as int].1@, 0);
    let b = a.drop_slots(ptr, 16, variants[i as int].1@, 0);
    let c = b.jump(merge);
    assert(b.grows_to(c));
    release_layout::arms_grow(c, ptr, tag, merge, first, variants, i + 1);
    meaning::grows_on(b, c, t);
    meaning::grows_on(a, b, t);
    meaning::contains_on(p, b, t);
    meaning::contains_on(p, c, t);
    let m1 = arm_tested(p, m, st, t, tag, i as u32, first, i);
    assert(m1.has(ptr) && m1.val(ptr) == m.val(ptr));
    assert(m1.has(tag) && m1.val(tag) == k);
    assert(machine::wrap(ClTy::I32, i as int) == i);
    if k == i {
        let m2 = slots_run(p, c0, a, ptr, 16, variants[i as int].1@, 0, m1);
        machine::reach_on(p, m, m1, Event::Go(m2));
        let e = jump_runs(p, m, m2, b, merge);
        carries_then(m, m1, m2, st.code.len(), a.code.len(), acts);
        e
    } else {
        let e = arms_run(p, c0, c, ptr, tag, merge, first, variants, i + 1, m1);
        machine::reach_on(p, m, m1, Event::Go(e));
        meaning::grows_on(st, a, b);
        carries_then(m, m1, e, st.code.len(), c.code.len(), acts);
        e
    }
}

/// Giving up the listed slots of a box from position `k` on.
pub proof fn listed_run(
    p: Prog,
    c0: Cells,
    st: St,
    ptr: Val,
    base: i32,
    slots: Seq<(usize, ResolvedTy)>,
    k: nat,
    m: Mach,
) -> (e: Mach)
    requires
        machine::same_values(c0, m.store.heap.cells),
        p.single(),
        st.tys.len() == st.code.len(),
        p.contains(st.drop_listed(ptr, base, slots, k)),
        m.pc == st.code.len(),
        m.store.passed.len() == 0,
        m.has(ptr),
        ptr.0 < st.code.len(),
        releases::listed_held(c0, m.val(ptr), base, slots, k),
    ensures
        p.reaches(m, Event::Go(e)),
        e.pc == st.drop_listed(ptr, base, slots, k).code.len(),
        m.carries(
            e,
            st.code.len(),
            releases::listed_given_up(c0, m.val(ptr), base, slots, k),
        ),
        e.has(ptr),
        e.val(ptr) == m.val(ptr),
    decreases slots.len() - k,
{
    machine::reach_step(p, m);
    if k < slots.len() {
        let ty = slots[k as int].1;
        let offset = state::slot_offset(base, slots[k as int].0 as nat);
        let t = st.drop_listed(ptr, base, slots, k);
        release_layout::field_laid_out(st, ptr, offset, ty);
        let a = st.drop_field(ptr, offset, ty);
        release_layout::listed_laid_out(a, ptr, base, slots, k + 1);
        meaning::contains_on(p, a, t);
        let m1 = field_runs(p, c0, st, ptr, offset, ty, m);
        assert(m1.has(ptr) && m1.val(ptr) == m.val(ptr));
        let e = listed_run(p, c0, a, ptr, base, slots, k + 1, m1);
        machine::reach_on(p, m, m1, Event::Go(e));
        let x = ty.slot_gives_up(c0, m.val(ptr) + offset);
        let y = releases::listed_given_up(c0, m.val(ptr), base, slots, k + 1);
        carries_on(m, m1, e, st.code.len(), a.code.len(), x, y);
        e
    } else {
        carries_none(m, m, st.code.len());
        m
    }
}

/// As [`enum_runs`], with the slots to release given.
pub proof fn enum_listed_runs(p: Prog, c0: Cells, st: St, ptr: Val, variants: Seq<DropVariant>, m: Mach) -> (e:
    Mach)
    requires
        machine::same_values(c0, m.store.heap.cells),
        p.single(),
        st.tys.len() == st.code.len(),
        p.contains(st.drop_enum_listed(ptr, variants)),
        m.pc == st.code.len(),
        m.store.passed.len() == 0,
        m.has(ptr),
        ptr.0 < st.code.len(),
        releases::enum_listed_held(c0, m.val(ptr), variants),
    ensures
        p.reaches(m, Event::Go(e)),
        e.pc == st.drop_enum_listed(ptr, variants).code.len(),
        m.carries(
            e,
            st.code.len(),
            releases::enum_listed_given_up(c0, m.val(ptr), variants),
        ),
{
    let n = variants.len();
    let cells = c0;
    let h = m.val(ptr);
    release_layout::enum_listed_laid_out(st, ptr, variants);
    let (a, tag) = st.load(ClTy::I32, ptr, 8);
    let (b, merge) = a.blk();
    let first = b.code.len();
    let (c, unreachable) = b.blocks(n).blk();
    let t = st.drop_enum_listed(ptr, variants);
    let last = seq![releases::act(RtSym::AggregateRelease, h)];
    if n > 0 {
        let d = c.jump(Blk(first as usize));
        let f = d.drop_arms_listed(ptr, tag, merge, first, variants, 0);
        meaning::grows_on(d, f, t);
        meaning::grows_on(c, d, t);
        meaning::contains_on(p, c, t);
        meaning::contains_on(p, d, t);
        meaning::contains_on(p, f, t);
        let m1 = switch_entered(p, c0, st, ptr, n, m);
        let m2 = jump_runs(p, m, m1, c, Blk(first as usize));
        assert(m2.has(tag) && m2.val(tag) == releases::word(cells, h + 8));
        assert(m2.has(ptr) && m2.val(ptr) == h);
        let m3 = arms_listed_run(p, c0, d, ptr, tag, merge, first, variants, 0, m2);
        machine::reach_on(p, m, m2, Event::Go(m3));
        let at = releases::variant_of(variants, releases::word(cells, h + 8), 0);
        let x = releases::listed_given_up(cells, h, 16, variants[at as int].fields@, 0);
        assert(m3.has(ptr) && m3.val(ptr) == h);
        let e = switch_left(p, m, m3, f, unreachable, merge, ptr);
        carries_then(m, m2, m3, st.code.len(), d.code.len(), x);
        carries_on(m, m3, e, st.code.len(), f.code.len(), x, last);
        assert(x + last =~= releases::enum_listed_given_up(cells, h, variants));
        e
    } else {
        release_layout::adds_act(c, RtSym::AggregateRelease, ptr);
        meaning::contains_on(p, c, t);
        let m1 = switch_entered(p, c0, st, ptr, n, m);
        let e = act_runs(p, m, m1, c, RtSym::AggregateRelease, ptr);
        carries_then(m, m1, e, st.code.len(), c.code.len(), last);
        assert(last =~= releases::enum_listed_given_up(cells, h, variants));
        e
    }
}

proof fn arms_listed_run(
    p: Prog,
    c0: Cells,
    st: St,
    ptr: Val,
    tag: Val,
    merge: Blk,
    first: nat,
    variants: Seq<DropVariant>,
    i: nat,
    m: Mach,
) -> (e: Mach)
    requires
        machine::same_values(c0, m.store.heap.cells),
        p.single(),
        st.tys.len() == st.code.len(),
        p.contains(st.drop_arms_listed(ptr, tag, merge, first, variants, i)),
        m.pc == p.start(Blk((first + i) as usize)),
        m.store.passed.len() == 0,
        m.has(ptr),
        m.has(tag),
        ptr.0 < st.code.len(),
        tag.0 < st.code.len(),
        releases::variant_of(variants, m.val(tag), i) < variants.len(),
        releases::listed_held(
            c0,
            m.val(ptr),
            16,
            variants[releases::variant_of(variants, m.val(tag), i) as int].fields@,
            0,
        ),
    ensures
        p.reaches(m, Event::Go(e)),
        e.pc == p.start(merge),
        m.carries(
            e,
            st.code.len(),
            releases::listed_given_up(
                c0,
                m.val(ptr),
                16,
                variants[releases::variant_of(variants, m.val(tag), i) as int].fields@,
                0,
            ),
        ),
    decreases variants.len() - i,
{
    let t = st.drop_arms_listed(ptr, tag, merge, first, variants, i);
    let k = m.val(tag);
    let at = releases::variant_of(variants, k, i);
    let acts = releases::listed_given_up(
        c0,
        m.val(ptr),
        16,
        variants[at as int].fields@,
        0,
    );
    let v = variants[i as int];
    assert(i < variants.len());
    let a = st.open_arm(tag, v.tag, first, i);
    assert(st.grows_to(a));
    release_layout::listed_laid_out(a, ptr, 16, v.fields@, 0);
    let b = a.drop_listed(ptr, 16, v.fields@, 0);
    let c = b.jump(merge);
    assert(b.grows_to(c));
    release_layout::arms_listed_grow(c, ptr, tag, merge, first, variants, i + 1);
    meaning::grows_on(b, c, t);
    meaning::grows_on(a, b, t);
    meaning::contains_on(p, b, t);
    meaning::contains_on(p, c, t);
    let m1 = arm_tested(p, m, st, t, tag, v.tag, first, i);
    assert(m1.has(ptr) && m1.val(ptr) == m.val(ptr));
    assert(m1.has(tag) && m1.val(tag) == k);
    if k == machine::wrap(ClTy::I32, v.tag as int) {
        let m2 = listed_run(p, c0, a, ptr, 16, v.fields@, 0, m1);
        machine::reach_on(p, m, m1, Event::Go(m2));
        let e = jump_runs(p, m, m2, b, merge);
        carries_then(m, m1, m2, st.code.len(), a.code.len(), acts);
        e
    } else {
        let e = arms_listed_run(p, c0, c, ptr, tag, merge, first, variants, i + 1, m1);
        machine::reach_on(p, m, m1, Event::Go(e));
        meaning::grows_on(st, a, b);
        carries_then(m, m1, e, st.code.len(), c.code.len(), acts);
        e
    }
}

/// Arithmetic on small words does not wrap.
proof fn small_word(x: int)
    requires
        0 <= x <= i64::MAX,
    ensures
        machine::wrap(ClTy::I64, x) == x,
{
    vstd::arithmetic::div_mod::lemma_small_mod(x as nat, 0x1_0000_0000_0000_0000);
}

/// The address of a slot is computed.
pub proof fn slot_addr_runs(p: Prog, m: Mach, mid: Mach, st: St, ptr: Val, index: Val, header: i64) -> (e:
    Mach)
    requires
        p.reaches(m, Event::Go(mid)),
        st.tys.len() == st.code.len(),
        p.contains(st.slot_addr(ptr, index, header).0),
        mid.pc == st.code.len(),
        mid.has(ptr),
        mid.has(index),
        st.val_ty(ptr) == Some(ClTy::I64),
        st.val_ty(index) == Some(ClTy::I64),
        0 <= header,
        0 <= mid.val(ptr),
        0 <= mid.val(index),
        mid.val(ptr) + header + 8 * mid.val(index) <= i64::MAX,
    ensures
        p.reaches(m, Event::Go(e)),
        e.pc == st.slot_addr(ptr, index, header).0.code.len(),
        e.store == mid.store,
        mid.keeps(e, st.code.len()),
        e.has(st.slot_addr(ptr, index, header).1),
        e.val(st.slot_addr(ptr, index, header).1) == mid.val(ptr) + header + 8 * mid.val(index),
        st.slot_addr(ptr, index, header).1.0 < st.slot_addr(ptr, index, header).0.code.len(),
{
    let t = st.slot_addr(ptr, index, header).0;
    release_layout::slot_addr_laid_out(st, ptr, index, header);
    let h = mid.val(ptr);
    let i = mid.val(index);
    let (a, eight) = st.iconst(ClTy::I64, 8);
    let (b, off) = a.arith(Arith::Imul, index, eight);
    running::step_on(p, m, mid, t, Inst::Iconst { ty: ClTy::I64, imm: 8 });
    let m1 = Mach { pc: mid.pc + 1, vals: mid.vals.insert(mid.pc, 8), ..mid };
    small_word(8);
    assert(p.step(mid) == Event::Go(m1));
    let mul = Inst::Arith { op: Arith::Imul, lhs: index, rhs: eight };
    running::step_on(p, m, m1, t, mul);
    assert(p.insts[index.0 as int] == t.code[index.0 as int]);
    assert(t.code[index.0 as int] == st.code[index.0 as int]);
    assert(m1.has(index) && m1.val(index) == i);
    assert(m1.has(eight) && m1.val(eight) == 8);
    small_word(i * 8);
    let m2 = Mach { pc: m1.pc + 1, vals: m1.vals.insert(m1.pc, 8 * i), ..m1 };
    assert(p.step(m1) == Event::Go(m2));
    assert(p.insts[ptr.0 as int] == t.code[ptr.0 as int]);
    assert(t.code[ptr.0 as int] == st.code[ptr.0 as int]);
    if header == 0 {
        let add = Inst::Arith { op: Arith::Iadd, lhs: ptr, rhs: off };
        running::step_on(p, m, m2, t, add);
        assert(m2.has(ptr) && m2.val(ptr) == h);
        assert(m2.has(off) && m2.val(off) == 8 * i);
        small_word(h + 8 * i);
        let m3 = Mach { pc: m2.pc + 1, vals: m2.vals.insert(m2.pc, h + 8 * i), ..m2 };
        assert(p.step(m2) == Event::Go(m3));
        m3
    } else {
        let (c, off2) = b.val(Inst::IaddImm { val: off, imm: header });
        running::step_on(p, m, m2, t, Inst::IaddImm { val: off, imm: header });
        assert(m2.has(off) && m2.val(off) == 8 * i);
        assert(p.insts[off.0 as int] == t.code[off.0 as int]);
        small_word(8 * i + header);
        let m3 = Mach { pc: m2.pc + 1, vals: m2.vals.insert(m2.pc, 8 * i + header), ..m2 };
        assert(p.step(m2) == Event::Go(m3));
        let add = Inst::Arith { op: Arith::Iadd, lhs: ptr, rhs: off2 };
        running::step_on(p, m, m3, t, add);
        assert(m3.has(ptr) && m3.val(ptr) == h);
        assert(m3.has(off2) && m3.val(off2) == 8 * i + header);
        let x = h + (8 * i + header);
        small_word(x);
        let m4 = Mach { pc: m3.pc + 1, vals: m3.vals.insert(m3.pc, x), ..m3 };
        assert(p.step(m3) == Event::Go(m4));
        m4
    }
}

/// A loop over an index is entered with the index at zero.
proof fn loop_entered(p: Prog, st: St, t: St, m: Mach) -> (e: Mach)
    requires
        p.single(),
        st.tys.len() == st.code.len(),
        p.contains(t),
        ({
            let (a, var) = st.index_var();
            let (d, exit) = a.blk().0.blk().0.blk();
            d.jump(a.blk().1).switch_to(a.blk().1).grows_to(t)
        }),
        m.pc == st.code.len(),
    ensures
        ({
            let (a, var) = st.index_var();
            let header = a.blk().1;
            let (d, exit) = a.blk().0.blk().0.blk();
            &&& p.reaches(m, Event::Go(e))
            &&& p.start(header) == d.jump(header).switch_to(header).code.len()
            &&& e.pc == p.start(header)
            &&& e.store == m.store.insert(var, 0)
            &&& m.keeps(e, st.code.len())
            &&& var.0 == st.code.len()
        }),
{
    let (a0, var) = st.declare(ClTy::I64);
    let (a1, zero) = a0.iconst(ClTy::I64, 0);
    let a = a1.def_var(var, zero);
    let (b, header) = a.blk();
    let (c, body) = b.blk();
    let (d, exit) = c.blk();
    let f = d.jump(header);
    let e0 = f.switch_to(header);
    meaning::contains_on(p, e0, t);
    running::start_behind(p, f, header, t);
    machine::reach_step(p, m);
    running::step_on(p, m, m, e0, Inst::DeclareVar { ty: ClTy::I64 });
    let m1 = Mach { pc: m.pc + 1, ..m };
    assert(p.step(m) == Event::Go(m1));
    running::step_on(p, m, m1, e0, Inst::Iconst { ty: ClTy::I64, imm: 0 });
    small_word(0);
    let m2 = Mach { pc: m1.pc + 1, vals: m1.vals.insert(m1.pc, 0), ..m1 };
    assert(p.step(m1) == Event::Go(m2));
    running::step_on(p, m, m2, e0, Inst::DefVar { var, val: zero });
    assert(m2.has(zero) && m2.val(zero) == 0);
    let m3 = Mach { pc: m2.pc + 1, store: m2.store.insert(var, 0), ..m2 };
    assert(p.step(m2) == Event::Go(m3));
    running::step_on(p, m, m3, e0, Inst::Block);
    let m4 = Mach { pc: m3.pc + 1, ..m3 };
    assert(p.step(m3) == Event::Go(m4));
    running::step_on(p, m, m4, e0, Inst::Block);
    let m5 = Mach { pc: m4.pc + 1, ..m4 };
    assert(p.step(m4) == Event::Go(m5));
    running::step_on(p, m, m5, e0, Inst::Block);
    let m6 = Mach { pc: m5.pc + 1, ..m5 };
    assert(p.step(m5) == Event::Go(m6));
    running::step_on(p, m, m6, e0, Inst::Jump { target: header });
    let m7 = Mach { pc: p.start(header), ..m6 };
    assert(p.step(m6) == Event::Go(m7));
    m7
}

/// The index of a loop is tested: to the body while it is below the limit,
/// else to the exit.
proof fn index_tested(
    p: Prog,
    m: Mach,
    mid: Mach,
    st: St,
    t: St,
    cur: Val,
    limit: Val,
    body: Blk,
    exit: Blk,
) -> (e: Mach)
    requires
        p.single(),
        p.reaches(m, Event::Go(mid)),
        st.tys.len() == st.code.len(),
        p.contains(t),
        st.test_index(cur, limit, body, exit).enter(body).grows_to(t),
        mid.pc == st.code.len(),
        mid.has(cur),
        mid.has(limit),
        cur.0 < st.code.len(),
        limit.0 < st.code.len(),
    ensures
        p.reaches(m, Event::Go(e)),
        e.store == mid.store,
        mid.keeps(e, st.code.len()),
        if mid.val(cur) < mid.val(limit) {
            e.pc == st.test_index(cur, limit, body, exit).enter(body).code.len()
        } else {
            e.pc == p.start(exit)
        },
{
    let test = Inst::IntCompare { icc: IntCc::SignedLessThan, lhs: cur, rhs: limit };
    let (a, below) = st.int_test(IntCc::SignedLessThan, cur, limit);
    let b = a.brif(below, body, exit);
    let c = b.switch_to(body);
    let d = c.seal(body);
    assert(c.grows_to(d));
    meaning::grows_on(c, d, t);
    meaning::contains_on(p, d, t);
    running::start_behind(p, b, body, t);
    running::step_on(p, m, mid, d, test);
    let y: int = if mid.val(cur) < mid.val(limit) {
        1
    } else {
        0
    };
    let m1 = Mach { pc: mid.pc + 1, vals: mid.vals.insert(mid.pc, y), ..mid };
    assert(p.step(mid) == Event::Go(m1));
    let brif = Inst::Brif { cond: below, then_blk: body, else_blk: exit };
    running::step_on(p, m, m1, d, brif);
    assert(m1.has(below) && m1.val(below) == y);
    let m2 = Mach {
        pc: p.start(
            if y != 0 {
                body
            } else {
                exit
            },
        ),
        ..m1
    };
    assert(p.step(m1) == Event::Go(m2));
    if y != 0 {
        seal_runs(p, m, m2, c, body)
    } else {
        m2
    }
}

/// The index of a loop is advanced, and the next round begins.
proof fn index_advanced(p: Prog, m: Mach, mid: Mach, st: St, var: Var, header: Blk) -> (e: Mach)
    requires
        p.reaches(m, Event::Go(mid)),
        st.tys.len() == st.code.len(),
        p.contains(st.advance(var, header)),
        mid.pc == st.code.len(),
        st.val_ty(Val(var.0)) == Some(ClTy::I64),
        mid.store.contains_key(var),
        0 <= mid.store[var] < i64::MAX,
    ensures
        p.reaches(m, Event::Go(e)),
        e.pc == p.start(header),
        e.store == mid.store.insert(var, mid.store[var] + 1),
        mid.keeps(e, st.code.len()),
{
    let t = st.advance(var, header);
    let i = mid.store[var];
    let (a, cur) = st.read_var(var);
    let (b, one) = a.iconst(ClTy::I64, 1);
    let (c, next) = b.arith(Arith::Iadd, cur, one);
    running::step_on(p, m, mid, t, Inst::UseVar { var });
    let m1 = Mach { pc: mid.pc + 1, vals: mid.vals.insert(mid.pc, i), ..mid };
    assert(p.step(mid) == Event::Go(m1));
    running::step_on(p, m, m1, t, Inst::Iconst { ty: ClTy::I64, imm: 1 });
    small_word(1);
    let m2 = Mach { pc: m1.pc + 1, vals: m1.vals.insert(m1.pc, 1), ..m1 };
    assert(p.step(m1) == Event::Go(m2));
    running::step_on(p, m, m2, t, Inst::Arith { op: Arith::Iadd, lhs: cur, rhs: one });
    assert(m2.has(cur) && m2.val(cur) == i);
    assert(m2.has(one) && m2.val(one) == 1);
    assert(p.insts[cur.0 as int] == t.code[cur.0 as int]);
    assert(t.tys[cur.0 as int] == Some(ClTy::I64));
    small_word(i + 1);
    let m3 = Mach { pc: m2.pc + 1, vals: m2.vals.insert(m2.pc, i + 1), ..m2 };
    assert(p.step(m2) == Event::Go(m3));
    running::step_on(p, m, m3, t, Inst::DefVar { var, val: next });
    assert(m3.has(next) && m3.val(next) == i + 1);
    let m4 = Mach { pc: m3.pc + 1, store: m3.store.insert(var, i + 1), ..m3 };
    assert(p.step(m3) == Event::Go(m4));
    running::step_on(p, m, m4, t, Inst::Jump { target: header });
    let m5 = Mach { pc: p.start(header), ..m4 };
    assert(p.step(m4) == Event::Go(m5));
    m5
}

/// A variable outside the first `n` positions may change.
proof fn carries_beside(a: Mach, b: Mach, c: Mach, n: nat, acts: Seq<Act>, var: Var, x: int)
    requires
        a.carries(b, n, acts),
        b.keeps(c, n),
        c.store == b.store.insert(var, x),
        n <= var.0,
    ensures
        a.carries(c, n, acts),
{
    assert forall|q: nat|
        #![trigger c.vals.contains_key(q)]
        #![trigger c.vals[q]]
        q < n && a.vals.contains_key(q) implies c.vals.contains_key(q) && c.vals[q] == a.vals[q] by {
        assert(b.vals.contains_key(q));
        assert(b.vals[q] == a.vals[q]);
    }
    assert forall|v: Var|
        #![trigger c.store.vars.contains_key(v)]
        #![trigger c.store.vars[v]]
        v.0 < n && a.store.vars.contains_key(v) implies c.store.vars.contains_key(v)
        && c.store.vars[v] == a.store.vars[v] by {
        assert(b.store.vars.contains_key(v));
        assert(b.store.vars[v] == a.store.vars[v]);
    }
}

/// Values that come later change nothing.
proof fn carries_same(a: Mach, b: Mach, c: Mach, n: nat, acts: Seq<Act>)
    requires
        a.carries(b, n, acts),
        b.keeps(c, n),
        c.store == b.store,
    ensures
        a.carries(c, n, acts),
{
    carries_none(b, c, n);
    carries_on(a, b, c, n, n, acts, Seq::empty());
    assert(acts + Seq::<Act>::empty() =~= acts);
}

proof fn element_at(cells: Cells, handle: int, elem: ResolvedTy, n: nat, i: nat)
    requires
        releases::elements_held(cells, handle, elem, n),
        i < n,
    ensures
        releases::has_word(cells, handle + 8 * i),
        elem.element_held(cells, releases::word(cells, handle + 8 * i)),
    decreases n,
{
    if i < n - 1 {
        element_at(cells, handle, elem, (n - 1) as nat, i);
    }
}

/// Giving up an element of an array, given its handle.
pub proof fn element_runs(p: Prog, c0: Cells, st: St, v: Val, elem: ResolvedTy, m: Mach) -> (e: Mach)
    requires
        machine::same_values(c0, m.store.heap.cells),
        p.single(),
        st.tys.len() == st.code.len(),
        p.contains(st.drop_element(v, elem)),
        m.pc == st.code.len(),
        m.store.passed.len() == 0,
        m.has(v),
        st.val_ty(v) == Some(ClTy::I64),
        elem.element_held(c0, m.val(v)),
    ensures
        p.reaches(m, Event::Go(e)),
        e.pc == st.drop_element(v, elem).code.len(),
        m.carries(e, st.code.len(), elem.element_gives_up(c0, m.val(v))),
    decreases elem, 2nat, 0nat,
{
    match elem {
        ResolvedTy::Tensor { dtype } => handle_runs(p, c0, st, v, elem, m),
        ResolvedTy::Struct { name, fields } => handle_runs(p, c0, st, v, elem, m),
        ResolvedTy::Enum { name, variants } => handle_runs(p, c0, st, v, elem, m),
        ResolvedTy::Array { elem: inner, len } => array_runs(p, c0, st, v, *inner, len, m),
        _ => {
            machine::reach_step(p, m);
            carries_none(m, m, st.code.len());
            m
        },
    }
}

/// What giving up an array of such elements comes to in code.
pub open spec fn array_dropped(st: St, arr: Val, elem: ResolvedTy, len: usize) -> St {
    (if elem.owns() {
        st.counted_drop(arr, elem, len)
    } else {
        st
    }).act(RtSym::HeapFree, arr)
}

/// Giving up an array.
pub proof fn array_runs(p: Prog, c0: Cells, st: St, arr: Val, elem: ResolvedTy, len: usize, m: Mach) -> (e: Mach)
    requires
        machine::same_values(c0, m.store.heap.cells),
        p.single(),
        st.tys.len() == st.code.len(),
        p.contains(array_dropped(st, arr, elem, len)),
        m.pc == st.code.len(),
        m.store.passed.len() == 0,
        m.has(arr),
        st.val_ty(arr) == Some(ClTy::I64),
        releases::array_held(c0, m.val(arr), elem, len),
    ensures
        p.reaches(m, Event::Go(e)),
        e.pc == array_dropped(st, arr, elem, len).code.len(),
        m.carries(
            e,
            st.code.len(),
            releases::array_given_up(c0, m.val(arr), elem, len),
        ),
    decreases elem, 4nat, 0nat,
{
    machine::reach_step(p, m);
    let cells = c0;
    let h = m.val(arr);
    let last = seq![releases::act(RtSym::HeapFree, h)];
    let acts = releases::array_given_up(cells, h, elem, len);
    if elem.owns() {
        release_layout::counted_laid_out(st, arr, elem, len);
        let b = st.counted_drop(arr, elem, len);
        release_layout::adds_act(b, RtSym::HeapFree, arr);
        let t = b.act(RtSym::HeapFree, arr);
        meaning::contains_on(p, b, t);
        let (a, var) = st.index_var();
        let (d, exit) = a.blk().0.blk().0.blk();
        let e0 = d.jump(a.blk().1).switch_to(a.blk().1);
        assert(e0.grows_to(b)) by {
            counted_grows(st, arr, elem, len);
        }
        let m1 = loop_entered(p, st, b, m);
        let none = Seq::<Act>::empty();
        carries_none(m, m, st.code.len());
        carries_beside(m, m, m1, st.code.len(), none, var, 0);
        assert(releases::elements_given_up(cells, h, elem, 0) =~= none);
        assert(m1.has(arr) && m1.val(arr) == h);
        let m2 = counted_round(p, c0, st, arr, elem, len, 0, m, m1);
        assert(m2.has(arr) && m2.val(arr) == h);
        let e = act_runs(p, m, m2, b, RtSym::HeapFree, arr);
        let x = releases::elements_given_up(cells, h, elem, len as nat);
        carries_on(m, m2, e, st.code.len(), b.code.len(), x, last);
        assert(x + last =~= acts);
        e
    } else {
        assert(acts =~= last);
        act_runs(p, m, m, st, RtSym::HeapFree, arr)
    }
}

proof fn counted_grows(st: St, arr: Val, elem: ResolvedTy, len: usize)
    requires
        st.tys.len() == st.code.len(),
    ensures
        ({
            let (a, var) = st.index_var();
            let (b, header) = a.blk();
            let (c, body) = b.blk();
            let (d, exit) = c.blk();
            let e = d.jump(header).switch_to(header);
            let (f, cur) = e.read_var(var);
            let (g, limit) = f.val(Inst::Iconst { ty: ClTy::I64, imm: len as i64 });
            let h = g.test_index(cur, limit, body, exit).enter(body);
            let (i, at) = h.read_var(var);
            let (j, addr) = i.slot_addr(arr, at, 0);
            let (k, handle) = j.load(ClTy::I64, addr, 0);
            let l = k.drop_element(handle, elem);
            let m = l.advance(var, header);
            let t = st.counted_drop(arr, elem, len);
            &&& e.grows_to(t)
            &&& g.grows_to(t)
            &&& h.grows_to(t)
            &&& i.grows_to(t)
            &&& j.grows_to(t)
            &&& k.grows_to(t)
            &&& l.grows_to(t)
            &&& m.grows_to(t)
            &&& a.grows_to(l)
            &&& a.grows_to(i)
        }),
{
    release_layout::counted_laid_out(st, arr, elem, len);
    let (a, var) = st.index_var();
    let (b, header) = a.blk();
    let (c, body) = b.blk();
    let (d, exit) = c.blk();
    let e = d.jump(header).switch_to(header);
    let (f, cur) = e.read_var(var);
    let (g, limit) = f.val(Inst::Iconst { ty: ClTy::I64, imm: len as i64 });
    let h = g.test_index(cur, limit, body, exit).enter(body);
    let (i, at) = h.read_var(var);
    let (j, addr) = i.slot_addr(arr, at, 0);
    let (k, handle) = j.load(ClTy::I64, addr, 0);
    let l = k.drop_element(handle, elem);
    let m = l.advance(var, header);
    let t = st.counted_drop(arr, elem, len);
    meaning::grows_on(k, l, t);
    release_layout::slot_addr_laid_out(i, arr, at, 0);
    assert(j.grows_to(k));
    meaning::grows_on(j, k, t);
    meaning::grows_on(i, j, t);
    assert(h.grows_to(i));
    meaning::grows_on(h, i, t);
    assert(g.grows_to(h));
    meaning::grows_on(g, h, t);
    assert(e.grows_to(g));
    meaning::grows_on(e, g, t);
    let s = m.seal(header);
    assert(m.grows_to(s.switch_to(exit)));
    meaning::grows_on(m, s.switch_to(exit), t);
    assert(d.grows_to(d.jump(header)));
    meaning::grows_on(a, d, d.jump(header));
    meaning::grows_on(a, d.jump(header), e);
    meaning::grows_on(a, e, h);
    meaning::grows_on(a, h, i);
    meaning::grows_on(a, h, k);
    meaning::grows_on(a, k, l);
}

/// The body of one round of the loop over an array.
proof fn counted_body(
    p: Prog,
    c0: Cells,
    st: St,
    arr: Val,
    elem: ResolvedTy,
    len: usize,
    n: nat,
    m0: Mach,
    m3: Mach,
) -> (m8: Mach)
    requires
        machine::same_values(c0, m0.store.heap.cells),
        p.single(),
        st.tys.len() == st.code.len(),
        p.contains(st.counted_drop(arr, elem, len)),
        p.reaches(m0, Event::Go(m3)),
        m0.has(arr),
        st.val_ty(arr) == Some(ClTy::I64),
        n < len,
        0 <= m0.val(arr),
        m0.val(arr) + 8 * len <= i64::MAX,
        releases::elements_held(c0, m0.val(arr), elem, len as nat),
        m0.carries(
            m3,
            st.code.len(),
            releases::elements_given_up(c0, m0.val(arr), elem, n),
        ),
        ({
            let (a, var) = st.index_var();
            let (b, header) = a.blk();
            let (c, body) = b.blk();
            let (d, exit) = c.blk();
            let e = d.jump(header).switch_to(header);
            let (f, cur) = e.read_var(var);
            let (g, limit) = f.val(Inst::Iconst { ty: ClTy::I64, imm: len as i64 });
            &&& m3.pc == g.test_index(cur, limit, body, exit).enter(body).code.len()
            &&& m3.store.contains_key(var)
            &&& m3.store[var] == n
        }),
    ensures
        p.reaches(m0, Event::Go(m8)),
        m0.carries(
            m8,
            st.code.len(),
            releases::elements_given_up(c0, m0.val(arr), elem, n + 1),
        ),
        ({
            let (a, var) = st.index_var();
            &&& m8.pc == p.start(a.blk().1)
            &&& m8.store.contains_key(var)
            &&& m8.store[var] == n + 1
        }),
    decreases elem, 3nat, 0nat,
{
    let cells = c0;
    let hd = m0.val(arr);
    let acts = releases::elements_given_up(cells, hd, elem, n);
    let base = st.code.len();
    counted_grows(st, arr, elem, len);
    release_layout::counted_laid_out(st, arr, elem, len);
    let (a, var) = st.index_var();
    let (b, header) = a.blk();
    let (c, body) = b.blk();
    let (d, exit) = c.blk();
    let e = d.jump(header).switch_to(header);
    let (f, cur) = e.read_var(var);
    let (g, limit) = f.val(Inst::Iconst { ty: ClTy::I64, imm: len as i64 });
    let h = g.test_index(cur, limit, body, exit).enter(body);
    let (i, at) = h.read_var(var);
    let (j, addr) = i.slot_addr(arr, at, 0);
    let (k, handle) = j.load(ClTy::I64, addr, 0);
    let l = k.drop_element(handle, elem);
    let ma = l.advance(var, header);
    let t = st.counted_drop(arr, elem, len);
    assert(var.0 == base);
    meaning::contains_on(p, i, t);
    meaning::contains_on(p, j, t);
    meaning::contains_on(p, k, t);
    meaning::contains_on(p, l, t);
    meaning::contains_on(p, ma, t);
    running::step_on(p, m0, m3, i, Inst::UseVar { var });
    let m4 = Mach { pc: m3.pc + 1, vals: m3.vals.insert(m3.pc, n as int), ..m3 };
    assert(p.step(m3) == Event::Go(m4));
    assert(m4.has(at) && m4.val(at) == n);
    assert(a.val_ty(Val(var.0)) == Some(ClTy::I64));
    assert(i.code[var.0 as int] == a.code[var.0 as int]);
    assert(h.val_ty(Val(var.0)) == Some(ClTy::I64));
    assert(i.val_ty(at) == Some(ClTy::I64));
    assert(i.code[arr.0 as int] == a.code[arr.0 as int]);
    assert(i.val_ty(arr) == Some(ClTy::I64));
    assert(m3.has(arr) && m3.val(arr) == hd);
    assert(m4.has(arr) && m4.val(arr) == hd);
    let m5 = slot_addr_runs(p, m0, m4, i, arr, at, 0);
    element_at(cells, hd, elem, len as nat, n);
    let m6 = load_runs(p, m0, m5, j, ClTy::I64, addr, 0);
    assert(m3.keeps(m6, base));
    carries_same(m0, m3, m6, base, acts);
    let x = releases::word(cells, hd + 8 * n);
    let m7 = element_runs(p, c0, k, handle, elem, m6);
    machine::reach_on(p, m0, m6, Event::Go(m7));
    let more = elem.element_gives_up(cells, x);
    carries_on(m0, m6, m7, base, k.code.len(), acts, more);
    assert(acts + more == releases::elements_given_up(cells, hd, elem, n + 1));
    assert(l.code[var.0 as int] == a.code[var.0 as int]);
    assert(m7.store.contains_key(var) && m7.store[var] == n);
    let m8 = index_advanced(p, m0, m7, l, var, header);
    assert(m7.keeps(m8, base));
    carries_beside(m0, m7, m8, base, acts + more, var, (n + 1) as int);
    m8
}

/// One round of the loop over an array, and those after it. `m0` is the point
/// before the loop.
proof fn counted_round(
    p: Prog,
    c0: Cells,
    st: St,
    arr: Val,
    elem: ResolvedTy,
    len: usize,
    n: nat,
    m0: Mach,
    m: Mach,
) -> (end: Mach)
    requires
        machine::same_values(c0, m0.store.heap.cells),
        p.single(),
        st.tys.len() == st.code.len(),
        p.contains(st.counted_drop(arr, elem, len)),
        p.reaches(m0, Event::Go(m)),
        m0.has(arr),
        st.val_ty(arr) == Some(ClTy::I64),
        n <= len,
        0 <= m0.val(arr),
        m0.val(arr) + 8 * len <= i64::MAX,
        releases::elements_held(c0, m0.val(arr), elem, len as nat),
        m0.carries(
            m,
            st.code.len(),
            releases::elements_given_up(c0, m0.val(arr), elem, n),
        ),
        ({
            let (a, var) = st.index_var();
            let header = a.blk().1;
            let (d, exit) = a.blk().0.blk().0.blk();
            &&& m.pc == d.jump(header).switch_to(header).code.len()
            &&& p.start(header) == m.pc
            &&& m.store.contains_key(var)
            &&& m.store[var] == n
        }),
    ensures
        p.reaches(m0, Event::Go(end)),
        end.pc == st.counted_drop(arr, elem, len).code.len(),
        m0.carries(
            end,
            st.code.len(),
            releases::elements_given_up(c0, m0.val(arr), elem, len as nat),
        ),
    decreases elem, 3nat, len - n,
{
    let cells = c0;
    let hd = m0.val(arr);
    let acts = releases::elements_given_up(cells, hd, elem, n);
    let base = st.code.len();
    counted_grows(st, arr, elem, len);
    release_layout::counted_laid_out(st, arr, elem, len);
    let (a, var) = st.index_var();
    let (b, header) = a.blk();
    let (c, body) = b.blk();
    let (d, exit) = c.blk();
    let e = d.jump(header).switch_to(header);
    let (f, cur) = e.read_var(var);
    let (g, limit) = f.val(Inst::Iconst { ty: ClTy::I64, imm: len as i64 });
    let h = g.test_index(cur, limit, body, exit).enter(body);
    let (i, at) = h.read_var(var);
    let (j, addr) = i.slot_addr(arr, at, 0);
    let (k, handle) = j.load(ClTy::I64, addr, 0);
    let l = k.drop_element(handle, elem);
    let ma = l.advance(var, header);
    let t = st.counted_drop(arr, elem, len);
    meaning::contains_on(p, g, t);
    assert(var.0 == base);
    running::step_on(p, m0, m, g, Inst::UseVar { var });
    let m1 = Mach { pc: m.pc + 1, vals: m.vals.insert(m.pc, n as int), ..m };
    assert(p.step(m) == Event::Go(m1));
    running::step_on(p, m0, m1, g, Inst::Iconst { ty: ClTy::I64, imm: len as i64 });
    small_word(len as int);
    let m2 = Mach { pc: m1.pc + 1, vals: m1.vals.insert(m1.pc, len as int), ..m1 };
    assert(p.step(m1) == Event::Go(m2));
    assert(m2.has(cur) && m2.val(cur) == n);
    assert(m2.has(limit) && m2.val(limit) == len);
    let m3 = index_tested(p, m0, m2, g, t, cur, limit, body, exit);
    assert(m.keeps(m3, base));
    carries_same(m0, m, m3, base, acts);
    if n < len {
        let m8 = counted_body(p, c0, st, arr, elem, len, n, m0, m3);
        counted_round(p, c0, st, arr, elem, len, n + 1, m0, m8)
    } else {
        let s = ma.seal(header);
        running::start_behind(p, s, exit, t);
        let u = s.switch_to(exit);
        let end = seal_runs(p, m0, m3, u, exit);
        assert(m3.keeps(end, base));
        carries_same(m0, m3, end, base, acts);
        end
    }
}

proof fn list_loop_grows(st: St, list: Val, len: Val)
    requires
        st.tys.len() == st.code.len(),
    ensures
        ({
            let (a, var) = st.index_var();
            let (b, header) = a.blk();
            let (c, body) = b.blk();
            let (d, exit) = c.blk();
            let e = d.jump(header).switch_to(header);
            let (f, cur) = e.read_var(var);
            let h = f.test_index(cur, len, body, exit).enter(body);
            let (i, at) = h.read_var(var);
            let (j, addr) = i.slot_addr(list, at, 16);
            let (k, handle) = j.load(ClTy::I64, addr, 0);
            let l = k.act(RtSym::TensorRelease, handle);
            let ma = l.advance(var, header);
            let t = st.list_drop(list, len);
            &&& e.grows_to(t)
            &&& f.grows_to(t)
            &&& h.grows_to(t)
            &&& i.grows_to(t)
            &&& j.grows_to(t)
            &&& k.grows_to(t)
            &&& l.grows_to(t)
            &&& ma.grows_to(t)
            &&& a.grows_to(l)
            &&& a.grows_to(i)
        }),
{
    release_layout::list_loop_laid_out(st, list, len);
    let (a, var) = st.index_var();
    let (b, header) = a.blk();
    let (c, body) = b.blk();
    let (d, exit) = c.blk();
    let e = d.jump(header).switch_to(header);
    let (f, cur) = e.read_var(var);
    let h = f.test_index(cur, len, body, exit).enter(body);
    let (i, at) = h.read_var(var);
    let (j, addr) = i.slot_addr(list, at, 16);
    let (k, handle) = j.load(ClTy::I64, addr, 0);
    let l = k.act(RtSym::TensorRelease, handle);
    let ma = l.advance(var, header);
    let t = st.list_drop(list, len);
    meaning::grows_on(k, l, t);
    release_layout::slot_addr_laid_out(i, list, at, 16);
    assert(j.grows_to(k));
    meaning::grows_on(j, k, t);
    meaning::grows_on(i, j, t);
    assert(h.grows_to(i));
    meaning::grows_on(h, i, t);
    assert(f.grows_to(h));
    meaning::grows_on(f, h, t);
    assert(e.grows_to(f));
    meaning::grows_on(e, f, t);
    let s = ma.seal(header);
    assert(ma.grows_to(s.switch_to(exit)));
    meaning::grows_on(ma, s.switch_to(exit), t);
    assert(d.grows_to(d.jump(header)));
    meaning::grows_on(a, d, d.jump(header));
    meaning::grows_on(a, d.jump(header), e);
    meaning::grows_on(a, e, h);
    meaning::grows_on(a, h, i);
    meaning::grows_on(a, h, k);
    meaning::grows_on(a, k, l);
}

/// Whether a run stands in the loop over a list, with `n` of its tensors
/// released.
spec fn in_list_loop(p: Prog, c0: Cells, st: St, list: Val, len: Val, n: nat, m0: Mach, m: Mach) -> bool {
    let var = st.index_var().1;
    &&& machine::same_values(c0, m0.store.heap.cells)
    &&& p.single()
    &&& st.tys.len() == st.code.len()
    &&& p.contains(st.list_drop(list, len))
    &&& p.reaches(m0, Event::Go(m))
    &&& m0.has(list)
    &&& m0.has(len)
    &&& list.0 < st.code.len()
    &&& len.0 < st.code.len()
    &&& st.val_ty(list) == Some(ClTy::I64)
    &&& n <= m0.val(len)
    &&& 0 <= m0.val(list)
    &&& m0.val(list) + 16 + 8 * m0.val(len) <= i64::MAX
    &&& forall|i: int|
        0 <= i < m0.val(len) ==> #[trigger] releases::has_item(
            c0,
            m0.val(list),
            i,
        )
    &&& m0.carries(
        m,
        st.code.len(),
        releases::items_given_up(c0, m0.val(list), n),
    )
    &&& m.store.contains_key(var)
    &&& m.store[var] == n
}

/// The body of one round of the loop over a list.
proof fn list_body(p: Prog, c0: Cells, st: St, list: Val, len: Val, n: nat, m0: Mach, m3: Mach) -> (m8: Mach)
    requires
        in_list_loop(p, c0, st, list, len, n, m0, m3),
        n < m0.val(len),
        ({
            let (a, var) = st.index_var();
            let (b, header) = a.blk();
            let (c, body) = b.blk();
            let (d, exit) = c.blk();
            let e = d.jump(header).switch_to(header);
            let (f, cur) = e.read_var(var);
            m3.pc == f.test_index(cur, len, body, exit).enter(body).code.len()
        }),
    ensures
        in_list_loop(p, c0, st, list, len, n + 1, m0, m8),
        m8.pc == p.start(st.index_var().0.blk().1),
{
    let cells = c0;
    let hd = m0.val(list);
    let acts = releases::items_given_up(cells, hd, n);
    let base = st.code.len();
    list_loop_grows(st, list, len);
    release_layout::list_loop_laid_out(st, list, len);
    let (a, var) = st.index_var();
    let (b, header) = a.blk();
    let (c, body) = b.blk();
    let (d, exit) = c.blk();
    let e = d.jump(header).switch_to(header);
    let (f, cur) = e.read_var(var);
    let h = f.test_index(cur, len, body, exit).enter(body);
    let (i, at) = h.read_var(var);
    let (j, addr) = i.slot_addr(list, at, 16);
    let (k, handle) = j.load(ClTy::I64, addr, 0);
    let l = k.act(RtSym::TensorRelease, handle);
    let ma = l.advance(var, header);
    let t = st.list_drop(list, len);
    assert(var.0 == base);
    meaning::contains_on(p, i, t);
    meaning::contains_on(p, j, t);
    meaning::contains_on(p, k, t);
    meaning::contains_on(p, l, t);
    meaning::contains_on(p, ma, t);
    running::step_on(p, m0, m3, i, Inst::UseVar { var });
    let m4 = Mach { pc: m3.pc + 1, vals: m3.vals.insert(m3.pc, n as int), ..m3 };
    assert(p.step(m3) == Event::Go(m4));
    assert(m4.has(at) && m4.val(at) == n);
    assert(a.val_ty(Val(var.0)) == Some(ClTy::I64));
    assert(i.code[var.0 as int] == a.code[var.0 as int]);
    assert(h.val_ty(Val(var.0)) == Some(ClTy::I64));
    assert(i.val_ty(at) == Some(ClTy::I64));
    assert(i.code[list.0 as int] == a.code[list.0 as int]);
    assert(i.val_ty(list) == Some(ClTy::I64));
    assert(m3.has(list) && m3.val(list) == hd);
    assert(m4.has(list) && m4.val(list) == hd);
    let m5 = slot_addr_runs(p, m0, m4, i, list, at, 16);
    assert(releases::has_item(cells, hd, n as int));
    let m6 = load_runs(p, m0, m5, j, ClTy::I64, addr, 0);
    assert(m3.keeps(m6, base));
    carries_same(m0, m3, m6, base, acts);
    let x = releases::list_item(cells, hd, n as int);
    let m7 = act_runs(p, m0, m6, k, RtSym::TensorRelease, handle);
    let more = seq![releases::act(RtSym::TensorRelease, x)];
    carries_on(m0, m6, m7, base, k.code.len(), acts, more);
    assert(acts + more =~= releases::items_given_up(cells, hd, n + 1));
    assert(l.code[var.0 as int] == a.code[var.0 as int]);
    assert(m7.store.contains_key(var) && m7.store[var] == n);
    let m8 = index_advanced(p, m0, m7, l, var, header);
    assert(m7.keeps(m8, base));
    carries_beside(m0, m7, m8, base, acts + more, var, (n + 1) as int);
    m8
}

/// One round of the loop over a list, and those after it. `m0` is the point
/// before the loop.
proof fn list_round(p: Prog, c0: Cells, st: St, list: Val, len: Val, n: nat, m0: Mach, m: Mach) -> (end: Mach)
    requires
        in_list_loop(p, c0, st, list, len, n, m0, m),
        ({
            let (a, var) = st.index_var();
            let header = a.blk().1;
            let (d, exit) = a.blk().0.blk().0.blk();
            &&& m.pc == d.jump(header).switch_to(header).code.len()
            &&& p.start(header) == m.pc
        }),
    ensures
        p.reaches(m0, Event::Go(end)),
        end.pc == st.list_drop(list, len).code.len(),
        m0.carries(
            end,
            st.code.len(),
            releases::items_given_up(c0, m0.val(list), m0.val(len) as nat),
        ),
    decreases m0.val(len) - n,
{
    let acts = releases::items_given_up(c0, m0.val(list), n);
    let base = st.code.len();
    list_loop_grows(st, list, len);
    release_layout::list_loop_laid_out(st, list, len);
    let (a, var) = st.index_var();
    let (b, header) = a.blk();
    let (c, body) = b.blk();
    let (d, exit) = c.blk();
    let e = d.jump(header).switch_to(header);
    let (f, cur) = e.read_var(var);
    let h = f.test_index(cur, len, body, exit).enter(body);
    let (i, at) = h.read_var(var);
    let (j, addr) = i.slot_addr(list, at, 16);
    let (k, handle) = j.load(ClTy::I64, addr, 0);
    let l = k.act(RtSym::TensorRelease, handle);
    let ma = l.advance(var, header);
    let t = st.list_drop(list, len);
    meaning::contains_on(p, f, t);
    assert(var.0 == base);
    running::step_on(p, m0, m, f, Inst::UseVar { var });
    let m1 = Mach { pc: m.pc + 1, vals: m.vals.insert(m.pc, n as int), ..m };
    assert(p.step(m) == Event::Go(m1));
    assert(m1.has(cur) && m1.val(cur) == n);
    assert(m.has(len) && m.val(len) == m0.val(len));
    assert(m1.has(len) && m1.val(len) == m0.val(len));
    let m3 = index_tested(p, m0, m1, f, t, cur, len, body, exit);
    assert(m.keeps(m3, base));
    carries_same(m0, m, m3, base, acts);
    if n < m0.val(len) {
        let m8 = list_body(p, c0, st, list, len, n, m0, m3);
        list_round(p, c0, st, list, len, n + 1, m0, m8)
    } else {
        let s = ma.seal(header);
        running::start_behind(p, s, exit, t);
        let u = s.switch_to(exit);
        let end = seal_runs(p, m0, m3, u, exit);
        assert(m3.keeps(end, base));
        carries_same(m0, m3, end, base, acts);
        end
    }
}

/// Giving up one reference to a list.
pub proof fn list_runs(p: Prog, st: St, ptr: Val, elem: ResolvedTy, m: Mach) -> (end: Mach)
    requires
        p.single(),
        st.tys.len() == st.code.len(),
        p.contains(st.drop_list(ptr, elem)),
        m.pc == st.code.len(),
        m.store.passed.len() == 0,
        m.has(ptr),
        st.val_ty(ptr) == Some(ClTy::I64),
        releases::list_held(m.store.heap.cells, m.val(ptr), elem),
    ensures
        p.reaches(m, Event::Go(end)),
        end.pc == st.drop_list(ptr, elem).code.len(),
        m.carries(
            end,
            st.code.len(),
            releases::list_given_up(m.store.heap.cells, m.val(ptr), elem),
        ),
{
    release_layout::list_laid_out(st, ptr, elem);
    let cells = m.store.heap.cells;
    let c0 = cells;
    let hd = m.val(ptr);
    let base = st.code.len();
    let (a, count) = st.load(ClTy::I64, ptr, 0);
    let (b, one) = a.iconst(ClTy::I64, 1);
    let (c, is_last) = b.int_test(IntCc::Equal, count, one);
    let (d, last) = c.blk();
    let (e, merge) = d.blk();
    let f = e.brif(is_last, last, merge);
    let fs = f.switch_to(last);
    let g = f.enter(last);
    let (h, len) = g.load(ClTy::I64, ptr, 8);
    let k = if elem is Tensor {
        h.list_drop(ptr, len)
    } else {
        g
    };
    let l = k.jump(merge);
    let n = l.enter(merge);
    let t = n.act(RtSym::ListRelease, ptr);
    meaning::contains_on(p, g, t);
    meaning::contains_on(p, k, t);
    meaning::contains_on(p, n, t);
    assert(l.grows_to(l.switch_to(merge)));
    meaning::grows_on(l, l.switch_to(merge), t);
    meaning::contains_on(p, l, t);
    running::start_behind(p, f, last, t);
    running::start_behind(p, l, merge, t);
    assert(a.grows_to(g));
    meaning::contains_on(p, a, g);
    machine::reach_step(p, m);
    let m1 = load_runs(p, m, m, st, ClTy::I64, ptr, 0);
    running::step_on(p, m, m1, g, Inst::Iconst { ty: ClTy::I64, imm: 1 });
    small_word(1);
    let m2 = Mach { pc: m1.pc + 1, vals: m1.vals.insert(m1.pc, 1), ..m1 };
    assert(p.step(m1) == Event::Go(m2));
    running::step_on(p, m, m2, g, Inst::IntCompare { icc: IntCc::Equal, lhs: count, rhs: one });
    assert(m2.has(count) && m2.val(count) == releases::word(cells, hd));
    assert(m2.has(one) && m2.val(one) == 1);
    let y: int = if releases::word(cells, hd) == 1 {
        1
    } else {
        0
    };
    let m3 = Mach { pc: m2.pc + 1, vals: m2.vals.insert(m2.pc, y), ..m2 };
    assert(p.step(m2) == Event::Go(m3));
    running::step_on(p, m, m3, g, Inst::Block);
    let m4 = Mach { pc: m3.pc + 1, ..m3 };
    assert(p.step(m3) == Event::Go(m4));
    running::step_on(p, m, m4, g, Inst::Block);
    let m5 = Mach { pc: m4.pc + 1, ..m4 };
    assert(p.step(m4) == Event::Go(m5));
    running::step_on(p, m, m5, g, Inst::Brif { cond: is_last, then_blk: last, else_blk: merge });
    assert(m5.has(is_last) && m5.val(is_last) == y);
    let m6 = Mach {
        pc: p.start(
            if y != 0 {
                last
            } else {
                merge
            },
        ),
        ..m5
    };
    assert(p.step(m5) == Event::Go(m6));
    let none = Seq::<Act>::empty();
    assert(m.keeps(m6, base));
    carries_none(m, m6, base);
    if y != 0 {
        let m7 = seal_runs(p, m, m6, fs, last);
        assert(m6.keeps(m7, base));
        carries_same(m, m6, m7, base, none);
        assert(m7.has(ptr) && m7.val(ptr) == hd);
        if elem is Tensor {
            let m9 = items_run(p, c0, g, ptr, elem, m, m7);
            let x = releases::items_given_up(cells, hd, releases::word(cells, hd + 8) as nat);
            carries_on(m, m7, m9, base, g.code.len(), none, x);
            assert(none + x =~= x);
            let m10 = jump_runs(p, m, m9, k, merge);
            assert(m9.keeps(m10, base));
            carries_same(m, m9, m10, base, x);
            list_left(p, st, ptr, elem, m, m10, l, merge, x)
        } else {
            let m10 = jump_runs(p, m, m7, k, merge);
            assert(m7.keeps(m10, base));
            carries_same(m, m7, m10, base, none);
            list_left(p, st, ptr, elem, m, m10, l, merge, none)
        }
    } else {
        list_left(p, st, ptr, elem, m, m6, l, merge, none)
    }
}

/// The tensors of a list are released.
proof fn items_run(p: Prog, c0: Cells, g: St, ptr: Val, elem: ResolvedTy, m: Mach, m7: Mach) -> (m9: Mach)
    requires
        machine::same_values(c0, m7.store.heap.cells),
        p.single(),
        g.tys.len() == g.code.len(),
        ({
            let (h, len) = g.load(ClTy::I64, ptr, 8);
            p.contains(h.list_drop(ptr, len))
        }),
        p.reaches(m, Event::Go(m7)),
        m7.pc == g.code.len(),
        m7.store.passed.len() == 0,
        m7.has(ptr),
        g.val_ty(ptr) == Some(ClTy::I64),
        releases::word(c0, m7.val(ptr)) == 1,
        elem is Tensor,
        releases::list_held(c0, m7.val(ptr), elem),
    ensures
        p.reaches(m, Event::Go(m9)),
        ({
            let (h, len) = g.load(ClTy::I64, ptr, 8);
            m9.pc == h.list_drop(ptr, len).code.len()
        }),
        m7.carries(
            m9,
            g.code.len(),
            releases::items_given_up(
                c0,
                m7.val(ptr),
                releases::word(c0, m7.val(ptr) + 8) as nat,
            ),
        ),
{
    let cells = c0;
    let hd = m7.val(ptr);
    let (h, len) = g.load(ClTy::I64, ptr, 8);
    let k = h.list_drop(ptr, len);
    release_layout::list_loop_laid_out(h, ptr, len);
    list_loop_grows(h, ptr, len);
    meaning::contains_on(p, h, k);
    let m8 = load_runs(p, m, m7, g, ClTy::I64, ptr, 8);
    assert(m8.has(ptr) && m8.val(ptr) == hd);
    machine::reach_step(p, m8);
    let m0 = loop_entered(p, h, k, m8);
    let var = h.index_var().1;
    let none = Seq::<Act>::empty();
    carries_none(m8, m8, h.code.len());
    carries_beside(m8, m8, m0, h.code.len(), none, var, 0);
    assert(releases::items_given_up(cells, hd, 0) =~= none);
    assert(h.code[ptr.0 as int] == g.code[ptr.0 as int]);
    let m9 = list_round(p, c0, h, ptr, len, 0, m8, m0);
    machine::reach_on(p, m, m8, Event::Go(m9));
    let x = releases::items_given_up(cells, hd, releases::word(cells, hd + 8) as nat);
    carries_then(m7, m8, m9, g.code.len(), h.code.len(), x);
    m9
}

/// The reference to a list is handed back.
proof fn list_left(
    p: Prog,
    st: St,
    ptr: Val,
    elem: ResolvedTy,
    m: Mach,
    mid: Mach,
    l: St,
    merge: Blk,
    x: Seq<Act>,
) -> (end: Mach)
    requires
        p.single(),
        st.tys.len() == st.code.len(),
        st.code.len() <= l.code.len(),
        l.tys.len() == l.code.len(),
        p.reaches(m, Event::Go(mid)),
        m.has(ptr),
        ptr.0 < st.code.len(),
        m.carries(mid, st.code.len(), x),
        st.drop_list(ptr, elem) == l.enter(merge).act(RtSym::ListRelease, ptr),
        mid.pc == p.start(merge),
        p.contains(st.drop_list(ptr, elem)),
        x.push(releases::act(RtSym::ListRelease, m.val(ptr))) == releases::list_given_up(
            m.store.heap.cells,
            m.val(ptr),
            elem,
        ),
    ensures
        p.reaches(m, Event::Go(end)),
        end.pc == st.drop_list(ptr, elem).code.len(),
        m.carries(
            end,
            st.code.len(),
            releases::list_given_up(m.store.heap.cells, m.val(ptr), elem),
        ),
{
    let n = l.enter(merge);
    let t = n.act(RtSym::ListRelease, ptr);
    release_layout::adds_act(n, RtSym::ListRelease, ptr);
    assert(l.switch_to(merge).grows_to(n));
    meaning::grows_on(l.switch_to(merge), n, t);
    meaning::contains_on(p, n, t);
    running::start_behind(p, l, merge, t);
    let m1 = seal_runs(p, m, mid, l.switch_to(merge), merge);
    assert(mid.keeps(m1, st.code.len()));
    carries_same(m, mid, m1, st.code.len(), x);
    assert(m1.has(ptr) && m1.val(ptr) == m.val(ptr));
    let end = act_runs(p, m, m1, n, RtSym::ListRelease, ptr);
    let last = seq![releases::act(RtSym::ListRelease, m.val(ptr))];
    carries_on(m, m1, end, st.code.len(), n.code.len(), x, last);
    assert(x + last =~= releases::list_given_up(m.store.heap.cells, m.val(ptr), elem));
    end
}

} // verus!
