//! How the code that gives up values is laid out.

use crate::codegen_cpu::inst::{Arith, Blk, ClTy, Inst, IntCc, Val, Var};
use crate::codegen_cpu::layout;
use crate::codegen_cpu::meaning;
use crate::codegen_cpu::state;
use crate::codegen_cpu::state::St;
use crate::codegen_cpu::symbols::RtSym;
use crate::typed::{DropVariant, ResolvedTy};
use vstd::prelude::*;

verus! {

impl St {
    /// Whether code was added that binds no names and owns its blocks.
    pub open spec fn adds(self, t: St) -> bool {
        &&& self.grows_to(t)
        &&& t.fits() ==> self.owns_blocks(t)
        &&& t.vars == self.vars
    }
}

pub proof fn adds_on(a: St, b: St, c: St)
    requires
        a.adds(b),
        b.adds(c),
    ensures
        a.adds(c),
{
    meaning::grows_on(a, b, c);
    if c.fits() {
        meaning::owns_on(a, b, c);
    }
}

/// An instruction that begins no block.
pub proof fn adds_emit(a: St, i: Inst)
    requires
        a.tys.len() == a.code.len(),
        !(i is SwitchTo),
    ensures
        a.adds(a.emit(i)),
{
}

/// A call of the runtime on one value is two instructions.
pub proof fn act_unfolds(a: St, sym: RtSym, v: Val)
    ensures
        a.act(sym, v) == a.emit(Inst::Arg { val: v }).emit(
            Inst::Call { callee: crate::codegen_cpu::inst::Callee::Runtime(sym), argc: 1 },
        ),
{
    reveal_with_fuel(St::pass_args, 2);
}

pub proof fn adds_act(a: St, sym: RtSym, v: Val)
    requires
        a.tys.len() == a.code.len(),
    ensures
        a.adds(a.act(sym, v)),
{
    act_unfolds(a, sym, v);
    adds_emit(a, Inst::Arg { val: v });
    let b = a.emit(Inst::Arg { val: v });
    let i = Inst::Call { callee: crate::codegen_cpu::inst::Callee::Runtime(sym), argc: 1 };
    adds_emit(b, i);
    adds_on(a, b, b.emit(i));
}

/// Blocks that were declared one after the other.
pub open spec fn row(first: nat, n: nat) -> Seq<Blk> {
    Seq::new(n, |j: int| Blk((first + j) as usize))
}

proof fn blocks_await(from: St, a: St, blocks: Seq<Blk>, n: nat)
    requires
        a.awaits(from, blocks),
    ensures
        a.blocks(n).awaits(from, blocks + row(a.code.len(), n)),
        a.blocks(n).code.len() == a.code.len() + n,
        a.blocks(n).vars == a.vars,
        a.grows_to(a.blocks(n)),
    decreases n,
{
    if n == 0 {
        assert(blocks + row(a.code.len(), n) =~= blocks);
    } else {
        let k = (n - 1) as nat;
        blocks_await(from, a, blocks, k);
        let b = a.blocks(k);
        layout::awaits_blk(from, b, blocks + row(a.code.len(), k));
        assert((blocks + row(a.code.len(), k)).push(b.blk().1) =~= blocks + row(a.code.len(), n));
        assert(b.grows_to(b.blk().0));
        meaning::grows_on(a, b, b.blk().0);
    }
}

/// The code before an arm of a switch opens the body of the arm.
pub proof fn open_arm_awaits(from: St, st: St, tag: Val, expected: u32, merge: Blk, first: nat, n: nat, i: nat)
    requires
        i < n,
        st.awaits(from, seq![merge] + row(first + i, (n - i + 1) as nat)),
    ensures
        st.open_arm(tag, expected, first, i).awaits(
            from,
            seq![merge] + row(first + i + 1, (n - i) as nat),
        ),
        st.grows_to(st.open_arm(tag, expected, first, i)),
        st.open_arm(tag, expected, first, i).vars == st.vars,
{
    let b0 = seq![merge] + row(first + i, (n - i + 1) as nat);
    let rest = seq![merge] + row(first + i + 1, (n - i) as nat);
    let test = Blk((first + i) as usize);
    let next = Blk((first + i + 1) as usize);
    let (a0, body) = st.blk();
    layout::awaits_blk(from, st, b0);
    let b1 = b0.push(body);
    assert(b1[1] == test);
    layout::awaits_switch(from, a0, b1, 1);
    let b2 = rest.push(body);
    assert(b1.remove(1) =~= b2);
    let a1 = a0.switch_to(test);
    layout::awaits_emit(from, a1, b2, Inst::Seal { target: test });
    let a2 = a1.seal(test);
    let (a3, want) = a2.iconst(ClTy::I32, expected as int);
    layout::awaits_emit(from, a2, b2, Inst::Iconst { ty: ClTy::I32, imm: expected as int as i64 });
    let (a4, hit) = a3.int_test(IntCc::Equal, tag, want);
    layout::awaits_emit(from, a3, b2, Inst::IntCompare { icc: IntCc::Equal, lhs: tag, rhs: want });
    let a5 = a4.brif(hit, body, next);
    layout::awaits_emit(
        from,
        a4,
        b2,
        Inst::Brif { cond: hit, then_blk: body, else_blk: next },
    );
    assert(b2[b2.len() - 1] == body);
    layout::awaits_switch(from, a5, b2, b2.len() - 1);
    assert(b2.remove(b2.len() - 1) =~= rest);
    let a6 = a5.switch_to(body);
    layout::awaits_emit(from, a6, rest, Inst::Seal { target: body });
    assert(st.open_arm(tag, expected, first, i) == a6.seal(body));
    assert(st.grows_to(a6.seal(body)));
}

/// What follows the arms of a switch.
proof fn switch_closes(from: St, st: St, unreachable: Blk, merge: Blk, ptr: Val)
    requires
        st.awaits(from, seq![merge, unreachable]),
        st.vars == from.vars,
    ensures
        ({
            let t = st.close_arms(unreachable).enter(merge).act(RtSym::AggregateRelease, ptr);
            from.adds(t) && st.grows_to(t)
        }),
{
    let b0 = seq![merge, unreachable];
    layout::awaits_switch(from, st, b0, 1);
    let b1 = seq![merge];
    assert(b0.remove(1) =~= b1);
    let a1 = st.switch_to(unreachable);
    layout::awaits_emit(from, a1, b1, Inst::Seal { target: unreachable });
    let a2 = a1.seal(unreachable);
    layout::awaits_emit(from, a2, b1, Inst::Trap);
    let a3 = a2.emit(Inst::Trap);
    layout::awaits_switch(from, a3, b1, 0);
    let b2 = Seq::<Blk>::empty();
    assert(b1.remove(0) =~= b2);
    let a4 = a3.switch_to(merge);
    layout::awaits_emit(from, a4, b2, Inst::Seal { target: merge });
    let a5 = a4.seal(merge);
    assert(from.adds(a5));
    adds_act(a5, RtSym::AggregateRelease, ptr);
    let t = a5.act(RtSym::AggregateRelease, ptr);
    adds_on(from, a5, t);
    assert(st.grows_to(a5));
    meaning::grows_on(st, a5, t);
}

/// The blocks of a switch, and the jump to its first test.
pub proof fn switch_opens(st: St, ptr: Val, n: nat)
    requires
        st.tys.len() == st.code.len(),
    ensures
        ({
            let (a, tag) = st.load(ClTy::I32, ptr, 8);
            let (b, merge) = a.blk();
            let first = b.code.len();
            let (c, unreachable) = b.blocks(n).blk();
            let d = c.jump(Blk(first as usize));
            &&& st.adds(c)
            &&& c.code.len() == first + n + 1
            &&& unreachable == Blk((first + n) as usize)
            &&& c.awaits(st, seq![merge] + row(first, n + 1))
            &&& d.awaits(st, seq![merge] + row(first, n + 1))
            &&& c.grows_to(d)
            &&& d.vars == st.vars
        }),
{
    let (a, tag) = st.load(ClTy::I32, ptr, 8);
    let none = Seq::<Blk>::empty();
    assert(st.awaits(st, none));
    layout::awaits_emit(st, st, none, Inst::Load { ty: ClTy::I32, base: ptr, offset: 8 });
    layout::awaits_blk(st, a, none);
    let (b, merge) = a.blk();
    assert(none.push(merge) =~= seq![merge]);
    let first = b.code.len();
    blocks_await(st, b, seq![merge], n);
    let r = b.blocks(n);
    layout::awaits_blk(st, r, seq![merge] + row(first, n));
    let (c, unreachable) = r.blk();
    assert((seq![merge] + row(first, n)).push(unreachable) =~= seq![merge] + row(first, n + 1));
    layout::awaits_emit(
        st,
        c,
        seq![merge] + row(first, n + 1),
        Inst::Jump { target: Blk(first as usize) },
    );
}

/// Code that gives up what a slot holds.
pub proof fn field_laid_out(st: St, base: Val, offset: i32, ty: ResolvedTy)
    requires
        st.tys.len() == st.code.len(),
    ensures
        st.adds(st.drop_field(base, offset, ty)),
    decreases ty, 0nat,
{
    let (a, nested) = st.load(ClTy::I64, base, offset);
    adds_emit(st, Inst::Load { ty: ClTy::I64, base, offset });
    match ty {
        ResolvedTy::Tensor { dtype } => {
            adds_act(a, RtSym::TensorRelease, nested);
            adds_on(st, a, a.act(RtSym::TensorRelease, nested));
        },
        ResolvedTy::Struct { name, fields } => {
            slots_laid_out(a, nested, 8, fields@, 0);
            let b = a.drop_slots(nested, 8, fields@, 0);
            adds_act(b, RtSym::AggregateRelease, nested);
            adds_on(st, a, b);
            adds_on(st, b, b.act(RtSym::AggregateRelease, nested));
        },
        ResolvedTy::Enum { name, variants } => {
            enum_laid_out(a, nested, variants@);
            adds_on(st, a, a.drop_enum(nested, variants@));
        },
        _ => {},
    }
}

pub proof fn slots_laid_out(st: St, ptr: Val, base: i32, fields: Seq<(String, ResolvedTy)>, i: nat)
    requires
        st.tys.len() == st.code.len(),
    ensures
        st.adds(st.drop_slots(ptr, base, fields, i)),
    decreases fields, fields.len() - i,
{
    if i < fields.len() {
        let offset = state::slot_offset(base, i);
        field_laid_out(st, ptr, offset, fields[i as int].1);
        let a = st.drop_field(ptr, offset, fields[i as int].1);
        slots_laid_out(a, ptr, base, fields, i + 1);
        adds_on(st, a, a.drop_slots(ptr, base, fields, i + 1));
    }
}

/// Code that gives up an enum: its tag is read, tested against the variants
/// one after the other, and what follows is common to all.
pub proof fn enum_laid_out(st: St, ptr: Val, variants: Seq<(String, Vec<(String, ResolvedTy)>)>)
    requires
        st.tys.len() == st.code.len(),
    ensures
        st.adds(st.drop_enum(ptr, variants)),
        ({
            let (a, tag) = st.load(ClTy::I32, ptr, 8);
            let (b, merge) = a.blk();
            let first = b.code.len();
            let (c, unreachable) = b.blocks(variants.len()).blk();
            let d = c.jump(Blk(first as usize));
            let f = d.drop_arms(ptr, tag, merge, first, variants, 0);
            let t = f.close_arms(unreachable).enter(merge).act(RtSym::AggregateRelease, ptr);
            &&& c.code.len() == first + variants.len() + 1
            &&& st.adds(c)
            &&& variants.len() > 0 ==> {
                &&& st.drop_enum(ptr, variants) == t
                &&& unreachable == Blk((first + variants.len()) as usize)
                &&& c.grows_to(d)
                &&& d.grows_to(f)
                &&& f.grows_to(t)
            }
        }),
    decreases variants, variants.len() + 1,
{
    let n = variants.len();
    switch_opens(st, ptr, n);
    let (a, tag) = st.load(ClTy::I32, ptr, 8);
    let (b, merge) = a.blk();
    let first = b.code.len();
    let (c, unreachable) = b.blocks(n).blk();
    let d = c.jump(Blk(first as usize));
    if n > 0 {
        arms_laid_out(st, d, ptr, tag, merge, first, variants, 0);
        let f = d.drop_arms(ptr, tag, merge, first, variants, 0);
        assert(seq![merge] + row(first + n, 1) =~= seq![merge, unreachable]);
        switch_closes(st, f, unreachable, merge, ptr);
    } else {
        adds_act(c, RtSym::AggregateRelease, ptr);
        adds_on(st, c, c.act(RtSym::AggregateRelease, ptr));
    }
}

proof fn arms_laid_out(
    from: St,
    st: St,
    ptr: Val,
    tag: Val,
    merge: Blk,
    first: nat,
    variants: Seq<(String, Vec<(String, ResolvedTy)>)>,
    i: nat,
)
    requires
        i <= variants.len(),
        st.awaits(from, seq![merge] + row(first + i, (variants.len() - i + 1) as nat)),
    ensures
        ({
            let t = st.drop_arms(ptr, tag, merge, first, variants, i);
            &&& t.awaits(from, seq![merge] + row(first + variants.len(), 1))
            &&& st.grows_to(t)
            &&& t.vars == st.vars
        }),
    decreases variants, variants.len() - i,
{
    let n = variants.len();
    if i < n {
        open_arm_awaits(from, st, tag, i as u32, merge, first, n, i);
        let a = st.open_arm(tag, i as u32, first, i);
        let rest = seq![merge] + row(first + i + 1, (n - i) as nat);
        slots_laid_out(a, ptr, 16, variants[i as int].1@, 0);
        let b = a.drop_slots(ptr, 16, variants[i as int].1@, 0);
        layout::awaits_code(from, a, b, rest);
        layout::awaits_emit(from, b, rest, Inst::Jump { target: merge });
        let c = b.jump(merge);
        assert(b.grows_to(c));
        assert(((n - (i + 1)) as nat + 1) as nat == (n - i) as nat);
        arms_laid_out(from, c, ptr, tag, merge, first, variants, i + 1);
        meaning::grows_on(st, a, b);
        meaning::grows_on(st, b, c);
        meaning::grows_on(st, c, st.drop_arms(ptr, tag, merge, first, variants, i));
    }
}

/// The arms of a switch come behind what was there.
pub proof fn arms_grow(
    st: St,
    ptr: Val,
    tag: Val,
    merge: Blk,
    first: nat,
    variants: Seq<(String, Vec<(String, ResolvedTy)>)>,
    i: nat,
)
    requires
        st.tys.len() == st.code.len(),
    ensures
        st.grows_to(st.drop_arms(ptr, tag, merge, first, variants, i)),
    decreases variants.len() - i,
{
    if i < variants.len() {
        let a = st.open_arm(tag, i as u32, first, i);
        assert(st.grows_to(a));
        slots_laid_out(a, ptr, 16, variants[i as int].1@, 0);
        let b = a.drop_slots(ptr, 16, variants[i as int].1@, 0);
        let c = b.jump(merge);
        assert(b.grows_to(c));
        arms_grow(c, ptr, tag, merge, first, variants, i + 1);
        meaning::grows_on(st, a, b);
        meaning::grows_on(st, b, c);
        meaning::grows_on(st, c, st.drop_arms(ptr, tag, merge, first, variants, i));
    }
}

pub proof fn arms_listed_grow(
    st: St,
    ptr: Val,
    tag: Val,
    merge: Blk,
    first: nat,
    variants: Seq<DropVariant>,
    i: nat,
)
    requires
        st.tys.len() == st.code.len(),
    ensures
        st.grows_to(st.drop_arms_listed(ptr, tag, merge, first, variants, i)),
    decreases variants.len() - i,
{
    if i < variants.len() {
        let a = st.open_arm(tag, variants[i as int].tag, first, i);
        assert(st.grows_to(a));
        listed_laid_out(a, ptr, 16, variants[i as int].fields@, 0);
        let b = a.drop_listed(ptr, 16, variants[i as int].fields@, 0);
        let c = b.jump(merge);
        assert(b.grows_to(c));
        arms_listed_grow(c, ptr, tag, merge, first, variants, i + 1);
        meaning::grows_on(st, a, b);
        meaning::grows_on(st, b, c);
        meaning::grows_on(st, c, st.drop_arms_listed(ptr, tag, merge, first, variants, i));
    }
}

pub proof fn listed_laid_out(st: St, ptr: Val, base: i32, slots: Seq<(usize, ResolvedTy)>, k: nat)
    requires
        st.tys.len() == st.code.len(),
    ensures
        st.adds(st.drop_listed(ptr, base, slots, k)),
    decreases slots.len() - k,
{
    if k < slots.len() {
        let offset = state::slot_offset(base, slots[k as int].0 as nat);
        field_laid_out(st, ptr, offset, slots[k as int].1);
        let a = st.drop_field(ptr, offset, slots[k as int].1);
        listed_laid_out(a, ptr, base, slots, k + 1);
        adds_on(st, a, a.drop_listed(ptr, base, slots, k + 1));
    }
}

/// As [`enum_laid_out`], with the slots to release given.
pub proof fn enum_listed_laid_out(st: St, ptr: Val, variants: Seq<DropVariant>)
    requires
        st.tys.len() == st.code.len(),
    ensures
        st.adds(st.drop_enum_listed(ptr, variants)),
        ({
            let (a, tag) = st.load(ClTy::I32, ptr, 8);
            let (b, merge) = a.blk();
            let first = b.code.len();
            let (c, unreachable) = b.blocks(variants.len()).blk();
            let d = c.jump(Blk(first as usize));
            let f = d.drop_arms_listed(ptr, tag, merge, first, variants, 0);
            let t = f.close_arms(unreachable).enter(merge).act(RtSym::AggregateRelease, ptr);
            &&& c.code.len() == first + variants.len() + 1
            &&& st.adds(c)
            &&& variants.len() > 0 ==> {
                &&& st.drop_enum_listed(ptr, variants) == t
                &&& unreachable == Blk((first + variants.len()) as usize)
                &&& c.grows_to(d)
                &&& d.grows_to(f)
                &&& f.grows_to(t)
            }
        }),
{
    let n = variants.len();
    switch_opens(st, ptr, n);
    let (a, tag) = st.load(ClTy::I32, ptr, 8);
    let (b, merge) = a.blk();
    let first = b.code.len();
    let (c, unreachable) = b.blocks(n).blk();
    let d = c.jump(Blk(first as usize));
    if n > 0 {
        arms_listed_laid_out(st, d, ptr, tag, merge, first, variants, 0);
        let f = d.drop_arms_listed(ptr, tag, merge, first, variants, 0);
        assert(seq![merge] + row(first + n, 1) =~= seq![merge, unreachable]);
        switch_closes(st, f, unreachable, merge, ptr);
    } else {
        adds_act(c, RtSym::AggregateRelease, ptr);
        adds_on(st, c, c.act(RtSym::AggregateRelease, ptr));
    }
}

proof fn arms_listed_laid_out(
    from: St,
    st: St,
    ptr: Val,
    tag: Val,
    merge: Blk,
    first: nat,
    variants: Seq<DropVariant>,
    i: nat,
)
    requires
        i <= variants.len(),
        st.awaits(from, seq![merge] + row(first + i, (variants.len() - i + 1) as nat)),
    ensures
        ({
            let t = st.drop_arms_listed(ptr, tag, merge, first, variants, i);
            &&& t.awaits(from, seq![merge] + row(first + variants.len(), 1))
            &&& st.grows_to(t)
            &&& t.vars == st.vars
        }),
    decreases variants.len() - i,
{
    let n = variants.len();
    if i < n {
        let v = variants[i as int];
        open_arm_awaits(from, st, tag, v.tag, merge, first, n, i);
        let a = st.open_arm(tag, v.tag, first, i);
        let rest = seq![merge] + row(first + i + 1, (n - i) as nat);
        listed_laid_out(a, ptr, 16, v.fields@, 0);
        let b = a.drop_listed(ptr, 16, v.fields@, 0);
        layout::awaits_code(from, a, b, rest);
        layout::awaits_emit(from, b, rest, Inst::Jump { target: merge });
        let c = b.jump(merge);
        assert(b.grows_to(c));
        assert(((n - (i + 1)) as nat + 1) as nat == (n - i) as nat);
        arms_listed_laid_out(from, c, ptr, tag, merge, first, variants, i + 1);
        meaning::grows_on(st, a, b);
        meaning::grows_on(st, b, c);
        meaning::grows_on(st, c, st.drop_arms_listed(ptr, tag, merge, first, variants, i));
    }
}

/// Code that takes the address of a slot.
pub proof fn slot_addr_laid_out(st: St, ptr: Val, index: Val, header: i64)
    requires
        st.tys.len() == st.code.len(),
    ensures
        st.adds(st.slot_addr(ptr, index, header).0),
        st.slot_addr(ptr, index, header).0.code.len() == st.code.len() + (if header == 0 {
            3int
        } else {
            4int
        }),
{
    let (a, eight) = st.iconst(ClTy::I64, 8);
    let (b, off) = a.arith(Arith::Imul, index, eight);
    let (c, off2) = b.val(Inst::IaddImm { val: off, imm: header });
    assert(st.adds(b));
    assert(st.adds(c));
}

/// Code of a loop over an index: `head` is what stands before the loop,
/// `test` the code up to the branch, `body` the code of one round.
pub proof fn loop_opens(st: St)
    requires
        st.tys.len() == st.code.len(),
    ensures
        ({
            let (a, var) = st.index_var();
            let (b, header) = a.blk();
            let (c, body) = b.blk();
            let (d, exit) = c.blk();
            let e = d.jump(header).switch_to(header);
            &&& e.awaits(st, seq![body, exit])
            &&& e.vars == st.vars
            &&& d.jump(header).grows_to(e)
            &&& st.grows_to(a)
            &&& a.grows_to(d)
        }),
{
    let (a, var) = st.index_var();
    let none = Seq::<Blk>::empty();
    assert(a.awaits(st, none));
    layout::awaits_blk(st, a, none);
    let (b, header) = a.blk();
    let b1 = seq![header];
    assert(none.push(header) =~= b1);
    layout::awaits_blk(st, b, b1);
    let (c, body) = b.blk();
    let b2 = seq![header, body];
    assert(b1.push(body) =~= b2);
    layout::awaits_blk(st, c, b2);
    let (d, exit) = c.blk();
    let b3 = seq![header, body, exit];
    assert(b2.push(exit) =~= b3);
    layout::awaits_emit(st, d, b3, Inst::Jump { target: header });
    layout::awaits_switch(st, d.jump(header), b3, 0);
    assert(b3.remove(0) =~= seq![body, exit]);
}

/// The branch of such a loop and the beginning of a round.
pub proof fn loop_branches(from: St, st: St, cur: Val, limit: Val, body: Blk, exit: Blk)
    requires
        st.awaits(from, seq![body, exit]),
    ensures
        ({
            let t = st.test_index(cur, limit, body, exit).enter(body);
            &&& t.awaits(from, seq![exit])
            &&& t.vars == st.vars
            &&& st.grows_to(t)
        }),
{
    let b0 = seq![body, exit];
    let (a, below) = st.int_test(IntCc::SignedLessThan, cur, limit);
    layout::awaits_emit(
        from,
        st,
        b0,
        Inst::IntCompare { icc: IntCc::SignedLessThan, lhs: cur, rhs: limit },
    );
    let b = a.brif(below, body, exit);
    layout::awaits_emit(from, a, b0, Inst::Brif { cond: below, then_blk: body, else_blk: exit });
    layout::awaits_switch(from, b, b0, 0);
    assert(b0.remove(0) =~= seq![exit]);
    let c = b.switch_to(body);
    layout::awaits_emit(from, c, seq![exit], Inst::Seal { target: body });
    assert(st.grows_to(c.seal(body)));
}

/// The end of such a loop.
pub proof fn loop_closes(from: St, st: St, var: Var, header: Blk, exit: Blk)
    requires
        st.awaits(from, seq![exit]),
        st.vars == from.vars,
    ensures
        ({
            let l = st.advance(var, header);
            let t = l.seal(header).enter(exit);
            &&& from.adds(t)
            &&& st.grows_to(l)
            &&& st.grows_to(t)
            &&& l.seal(header).switch_to(exit).grows_to(t)
        }),
{
    let b0 = seq![exit];
    let l = st.advance(var, header);
    let m = l.seal(header);
    assert(st.grows_to(m) && st.owns_blocks(m));
    layout::awaits_code(from, st, m, b0);
    layout::awaits_switch(from, m, b0, 0);
    let none = Seq::<Blk>::empty();
    assert(b0.remove(0) =~= none);
    let n = m.switch_to(exit);
    layout::awaits_emit(from, n, none, Inst::Seal { target: exit });
    assert(m.grows_to(n.seal(exit)));
    meaning::grows_on(st, m, n.seal(exit));
}

/// Code that gives up an element of an array.
pub proof fn element_laid_out(st: St, handle: Val, elem: ResolvedTy)
    requires
        st.tys.len() == st.code.len(),
    ensures
        st.adds(st.drop_element(handle, elem)),
    decreases elem, 0nat,
{
    match elem {
        ResolvedTy::Tensor { dtype } => {
            adds_act(st, RtSym::TensorRelease, handle);
        },
        ResolvedTy::Struct { name, fields } => {
            slots_laid_out(st, handle, 8, fields@, 0);
            let b = st.drop_slots(handle, 8, fields@, 0);
            adds_act(b, RtSym::AggregateRelease, handle);
            adds_on(st, b, b.act(RtSym::AggregateRelease, handle));
        },
        ResolvedTy::Enum { name, variants } => {
            enum_laid_out(st, handle, variants@);
        },
        ResolvedTy::Array { elem: inner, len } => {
            if inner.owns() {
                counted_laid_out(st, handle, *inner, len);
                let b = st.counted_drop(handle, *inner, len);
                adds_act(b, RtSym::HeapFree, handle);
                adds_on(st, b, b.act(RtSym::HeapFree, handle));
            } else {
                adds_act(st, RtSym::HeapFree, handle);
            }
        },
        _ => {},
    }
}

/// Code of the loop that gives up the elements of an array.
pub proof fn counted_laid_out(st: St, arr: Val, elem: ResolvedTy, len: usize)
    requires
        st.tys.len() == st.code.len(),
    ensures
        st.adds(st.counted_drop(arr, elem, len)),
        ({
            let (a, var) = st.index_var();
            let (b, header) = a.blk();
            let (c, body) = b.blk();
            let (d, exit) = c.blk();
            let e = d.jump(header).switch_to(header);
            let (f, cur) = e.read_var(var);
            let (g, limit) = f.val(Inst::Iconst { ty: ClTy::I64, imm: len as i64 });
            let h = g.test_index(cur, limit, body, exit).enter(body);
            let (i, at) = h.read_var(var);
            let (j, addr) = i.slot_addr(arr, at, 0);
            let (k, handle) = j.load(ClTy::I64, addr, 0);
            let l = k.drop_element(handle, elem);
            let m = l.advance(var, header);
            let t = m.seal(header).enter(exit);
            &&& t == st.counted_drop(arr, elem, len)
            &&& e.grows_to(h)
            &&& h.grows_to(k)
            &&& k.adds(l)
            &&& l.grows_to(m)
            &&& l.grows_to(t)
            &&& k.code.len() == h.code.len() + 5
            &&& m.seal(header).switch_to(exit).grows_to(t)
            &&& d.jump(header).grows_to(e)
            &&& a.grows_to(d)
        }),
    decreases elem, 1nat,
{
    loop_opens(st);
    let (a, var) = st.index_var();
    let (b, header) = a.blk();
    let (c, body) = b.blk();
    let (d, exit) = c.blk();
    let e = d.jump(header).switch_to(header);
    let (f, cur) = e.read_var(var);
    let (g, limit) = f.val(Inst::Iconst { ty: ClTy::I64, imm: len as i64 });
    layout::awaits_emit(st, e, seq![body, exit], Inst::UseVar { var });
    layout::awaits_emit(st, f, seq![body, exit], Inst::Iconst { ty: ClTy::I64, imm: len as i64 });
    loop_branches(st, g, cur, limit, body, exit);
    let h = g.test_index(cur, limit, body, exit).enter(body);
    assert(e.grows_to(g));
    meaning::grows_on(e, g, h);
    let (i, at) = h.read_var(var);
    adds_emit(h, Inst::UseVar { var });
    slot_addr_laid_out(i, arr, at, 0);
    let (j, addr) = i.slot_addr(arr, at, 0);
    adds_on(h, i, j);
    let (k, handle) = j.load(ClTy::I64, addr, 0);
    adds_emit(j, Inst::Load { ty: ClTy::I64, base: addr, offset: 0 });
    adds_on(h, j, k);
    element_laid_out(k, handle, elem);
    let l = k.drop_element(handle, elem);
    adds_on(h, k, l);
    layout::awaits_code(st, h, l, seq![exit]);
    loop_closes(st, l, var, header, exit);
}

/// Code of the loop that releases the tensors of a list.
pub proof fn list_loop_laid_out(st: St, list: Val, len: Val)
    requires
        st.tys.len() == st.code.len(),
    ensures
        st.adds(st.list_drop(list, len)),
        ({
            let (a, var) = st.index_var();
            let (b, header) = a.blk();
            let (c, body) = b.blk();
            let (d, exit) = c.blk();
            let e = d.jump(header).switch_to(header);
            let (f, cur) = e.read_var(var);
            let h = f.test_index(cur, len, body, exit).enter(body);
            let (i, at) = h.read_var(var);
            let (j, addr) = i.slot_addr(list, at, 16);
            let (k, handle) = j.load(ClTy::I64, addr, 0);
            let l = k.act(RtSym::TensorRelease, handle);
            let m = l.advance(var, header);
            let t = m.seal(header).enter(exit);
            &&& t == st.list_drop(list, len)
            &&& e.grows_to(h)
            &&& h.grows_to(k)
            &&& k.adds(l)
            &&& l.grows_to(m)
            &&& l.grows_to(t)
            &&& k.code.len() == h.code.len() + 6
            &&& m.seal(header).switch_to(exit).grows_to(t)
            &&& d.jump(header).grows_to(e)
            &&& a.grows_to(d)
        }),
{
    loop_opens(st);
    let (a, var) = st.index_var();
    let (b, header) = a.blk();
    let (c, body) = b.blk();
    let (d, exit) = c.blk();
    let e = d.jump(header).switch_to(header);
    let (f, cur) = e.read_var(var);
    layout::awaits_emit(st, e, seq![body, exit], Inst::UseVar { var });
    loop_branches(st, f, cur, len, body, exit);
    let h = f.test_index(cur, len, body, exit).enter(body);
    assert(e.grows_to(f));
    meaning::grows_on(e, f, h);
    let (i, at) = h.read_var(var);
    adds_emit(h, Inst::UseVar { var });
    slot_addr_laid_out(i, list, at, 16);
    let (j, addr) = i.slot_addr(list, at, 16);
    adds_on(h, i, j);
    let (k, handle) = j.load(ClTy::I64, addr, 0);
    adds_emit(j, Inst::Load { ty: ClTy::I64, base: addr, offset: 0 });
    adds_on(h, j, k);
    adds_act(k, RtSym::TensorRelease, handle);
    let l = k.act(RtSym::TensorRelease, handle);
    adds_on(h, k, l);
    layout::awaits_code(st, h, l, seq![exit]);
    loop_closes(st, l, var, header, exit);
}

/// Code that gives up one reference to a list.
pub proof fn list_laid_out(st: St, ptr: Val, elem: ResolvedTy)
    requires
        st.tys.len() == st.code.len(),
    ensures
        st.adds(st.drop_list(ptr, elem)),
        ({
            let (a, count) = st.load(ClTy::I64, ptr, 0);
            let (b, one) = a.iconst(ClTy::I64, 1);
            let (c, is_last) = b.int_test(IntCc::Equal, count, one);
            let (d, last) = c.blk();
            let (e, merge) = d.blk();
            let f = e.brif(is_last, last, merge);
            let g = f.enter(last);
            let (h, len) = g.load(ClTy::I64, ptr, 8);
            let k = if elem is Tensor {
                h.list_drop(ptr, len)
            } else {
                g
            };
            let l = k.jump(merge);
            let n = l.enter(merge);
            let t = n.act(RtSym::ListRelease, ptr);
            &&& t == st.drop_list(ptr, elem)
            &&& g.grows_to(k)
            &&& elem is Tensor ==> g.grows_to(h) && h.adds(k)
            &&& l.switch_to(merge).grows_to(t)
            &&& f.switch_to(last).grows_to(t)
            &&& g.grows_to(t)
            &&& k.grows_to(t)
            &&& n.grows_to(t)
        }),
{
    let none = Seq::<Blk>::empty();
    let (a, count) = st.load(ClTy::I64, ptr, 0);
    let (b, one) = a.iconst(ClTy::I64, 1);
    let (c, is_last) = b.int_test(IntCc::Equal, count, one);
    assert(c.awaits(st, none));
    layout::awaits_blk(st, c, none);
    let (d, last) = c.blk();
    let b1 = seq![last];
    assert(none.push(last) =~= b1);
    layout::awaits_blk(st, d, b1);
    let (e, merge) = d.blk();
    let b2 = seq![last, merge];
    assert(b1.push(merge) =~= b2);
    let f = e.brif(is_last, last, merge);
    layout::awaits_emit(
        st,
        e,
        b2,
        Inst::Brif { cond: is_last, then_blk: last, else_blk: merge },
    );
    layout::awaits_switch(st, f, b2, 0);
    let b3 = seq![merge];
    assert(b2.remove(0) =~= b3);
    layout::awaits_emit(st, f.switch_to(last), b3, Inst::Seal { target: last });
    let g = f.enter(last);
    let (h, len) = g.load(ClTy::I64, ptr, 8);
    let k = if elem is Tensor {
        h.list_drop(ptr, len)
    } else {
        g
    };
    if elem is Tensor {
        adds_emit(g, Inst::Load { ty: ClTy::I64, base: ptr, offset: 8 });
        list_loop_laid_out(h, ptr, len);
        adds_on(g, h, k);
    }
    assert(g.adds(k));
    layout::awaits_code(st, g, k, b3);
    let l = k.jump(merge);
    layout::awaits_emit(st, k, b3, Inst::Jump { target: merge });
    layout::awaits_switch(st, l, b3, 0);
    assert(b3.remove(0) =~= none);
    layout::awaits_emit(st, l.switch_to(merge), none, Inst::Seal { target: merge });
    let n = l.enter(merge);
    assert(st.adds(n));
    adds_act(n, RtSym::ListRelease, ptr);
    let t = n.act(RtSym::ListRelease, ptr);
    adds_on(st, n, t);
    assert(l.switch_to(merge).grows_to(n));
    meaning::grows_on(l.switch_to(merge), n, t);
    assert(k.grows_to(n));
    meaning::grows_on(k, n, t);
    meaning::grows_on(g, k, t);
    assert(f.switch_to(last).grows_to(g));
    meaning::grows_on(f.switch_to(last), g, t);
}

} // verus!
