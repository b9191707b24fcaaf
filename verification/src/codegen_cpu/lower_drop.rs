//! Code that releases what a value owns: tensors, boxes, arrays and lists.

use crate::codegen_cpu::inst::{Arith, Blk, ClTy, Inst, IntCc, Val, Var};
use crate::codegen_cpu::state::{slot_offset_of, FnTranslator};
use crate::codegen_cpu::symbols::RtSym;
use crate::typed::{DropVariant, ResolvedTy};
use vstd::prelude::*;

verus! {

pub(crate) fn owns(ty: &ResolvedTy) -> (r: bool)
    ensures
        r == ty.owns(),
{
    ty.is_tensor() || ty.is_struct() || ty.is_enum() || ty.is_array()
}

impl FnTranslator {
    pub(crate) fn switch_to(&mut self, target: Blk)
        ensures
            final(self)@ == old(self)@.switch_to(target),
    {
        self.emit(Inst::SwitchTo { target });
    }

    pub(crate) fn seal(&mut self, target: Blk)
        ensures
            final(self)@ == old(self)@.seal(target),
    {
        self.emit(Inst::Seal { target });
    }

    pub(crate) fn jump(&mut self, target: Blk)
        ensures
            final(self)@ == old(self)@.jump(target),
    {
        self.emit(Inst::Jump { target });
    }

    pub(crate) fn enter(&mut self, target: Blk)
        ensures
            final(self)@ == old(self)@.enter(target),
    {
        self.switch_to(target);
        self.seal(target);
    }

    pub(crate) fn def_var(&mut self, var: Var, v: Val)
        ensures
            final(self)@ == old(self)@.def_var(var, v),
    {
        self.emit(Inst::DefVar { var, val: v });
    }

    pub(crate) fn read_var(&mut self, var: Var) -> (r: Val)
        ensures
            (final(self)@, r) == old(self)@.read_var(var),
    {
        self.val(Inst::UseVar { var })
    }

    pub(crate) fn int_test(&mut self, icc: IntCc, lhs: Val, rhs: Val) -> (r: Val)
        ensures
            (final(self)@, r) == old(self)@.int_test(icc, lhs, rhs),
    {
        self.val(Inst::IntCompare { icc, lhs, rhs })
    }

    pub(crate) fn brif(&mut self, cond: Val, then_blk: Blk, else_blk: Blk)
        ensures
            final(self)@ == old(self)@.brif(cond, then_blk, else_blk),
    {
        self.emit(Inst::Brif { cond, then_blk, else_blk });
    }

    pub(crate) fn act(&mut self, sym: RtSym, v: Val)
        ensures
            final(self)@ == old(self)@.act(sym, v),
    {
        self.rt1(sym, v);
    }

    /// Declares `n` blocks in a row.
    pub(crate) fn blocks(&mut self, n: usize) -> (r: Vec<Blk>)
        ensures
            final(self)@ == old(self)@.blocks(n as nat),
            final(self)@.code.len() == old(self)@.code.len() + n,
            r@.len() == n,
            forall|i: int|
                0 <= i < n ==> #[trigger] r@[i] == Blk((old(self)@.code.len() + i) as usize),
    {
        let mut out: Vec<Blk> = Vec::new();
        let mut i: usize = 0;
        while i < n
            invariant
                i <= n,
                self@ == old(self)@.blocks(i as nat),
                self@.code.len() == old(self)@.code.len() + i,
                out@.len() == i,
                forall|k: int|
                    0 <= k < i ==> #[trigger] out@[k] == Blk(
                        (old(self)@.code.len() + k) as usize,
                    ),
            decreases n - i,
        {
            let b = self.blk();
            out.push(b);
            i = i + 1;
        }
        out
    }

    pub(crate) fn index_var(&mut self) -> (r: Var)
        ensures
            (final(self)@, r) == old(self)@.index_var(),
    {
        let var = self.declare(ClTy::I64);
        let zero = self.iconst(ClTy::I64, 0);
        self.def_var(var, zero);
        var
    }

    pub(crate) fn advance(&mut self, var: Var, header: Blk)
        ensures
            final(self)@ == old(self)@.advance(var, header),
    {
        let cur = self.read_var(var);
        let one = self.iconst(ClTy::I64, 1);
        let next = self.val(Inst::Arith { op: Arith::Iadd, lhs: cur, rhs: one });
        self.def_var(var, next);
        self.jump(header);
    }

    pub(crate) fn test_index(&mut self, cur: Val, limit: Val, body: Blk, exit: Blk)
        ensures
            final(self)@ == old(self)@.test_index(cur, limit, body, exit),
    {
        let below = self.int_test(IntCc::SignedLessThan, cur, limit);
        self.brif(below, body, exit);
    }

    /// Tests a tag and enters the body of the arm for it.
    pub(crate) fn open_arm(
        &mut self,
        tag: Val,
        expected: u32,
        Ghost(first): Ghost<nat>,
        Ghost(i): Ghost<nat>,
        test: Blk,
        next: Blk,
    )
        requires
            test == Blk((first + i) as usize),
            next == Blk((first + i + 1) as usize),
        ensures
            final(self)@ == old(self)@.open_arm(tag, expected, first, i),
    {
        let body = self.blk();
        self.enter(test);
        let want = self.iconst(ClTy::I32, expected as i64);
        let hit = self.int_test(IntCc::Equal, tag, want);
        self.brif(hit, body, next);
        self.enter(body);
    }

    pub(crate) fn close_arms(&mut self, unreachable: Blk)
        ensures
            final(self)@ == old(self)@.close_arms(unreachable),
    {
        self.enter(unreachable);
        self.emit(Inst::Trap);
    }

    /// Releases the value at a byte offset of a box.
    pub(crate) fn emit_drop_field(&mut self, base: Val, offset: i32, ty: &ResolvedTy)
        ensures
            final(self)@ == old(self)@.drop_field(base, offset, *ty),
        decreases ty, 0nat,
    {
        match ty {
            ResolvedTy::Tensor { dtype } => {
                let handle = self.load(ClTy::I64, base, offset);
                self.act(RtSym::TensorRelease, handle);
            },
            ResolvedTy::Struct { name, fields } => {
                let nested = self.load(ClTy::I64, base, offset);
                self.emit_drop_slots(nested, 8, fields);
                self.act(RtSym::AggregateRelease, nested);
            },
            ResolvedTy::Enum { name, variants } => {
                let nested = self.load(ClTy::I64, base, offset);
                self.emit_drop_enum_box(nested, variants);
            },
            _ => {},
        }
    }

    fn emit_drop_slots(&mut self, ptr: Val, base: i32, fields: &Vec<(String, ResolvedTy)>)
        ensures
            final(self)@ == old(self)@.drop_slots(ptr, base, fields@, 0),
        decreases fields, fields@.len(),
    {
        let mut i: usize = 0;
        while i < fields.len()
            invariant
                i <= fields.len(),
                old(self)@.drop_slots(ptr, base, fields@, 0) == self@.drop_slots(
                    ptr,
                    base,
                    fields@,
                    i as nat,
                ),
            decreases fields.len() - i,
        {
            self.emit_drop_field(ptr, slot_offset_of(base, i), &fields[i].1);
            i = i + 1;
        }
    }

    /// Releases an enum box: the fields of the variant it holds, then the box.
    fn emit_drop_enum_box(&mut self, ptr: Val, variants: &Vec<(String, Vec<(String, ResolvedTy)>)>)
        ensures
            final(self)@ == old(self)@.drop_enum(ptr, variants@),
        decreases variants, variants@.len() + 1,
    {
        let tag = self.load(ClTy::I32, ptr, 8);
        let merge = self.blk();
        let ghost first = self@.code.len();
        let tests = self.blocks(variants.len());
        let unreachable = self.blk();
        if variants.len() == 0 {
            self.act(RtSym::AggregateRelease, ptr);
        } else {
            self.jump(tests[0]);
            let ghost st1 = self@;
            let mut i: usize = 0;
            while i < variants.len()
                invariant
                    i <= variants.len(),
                    tests@.len() == variants@.len(),
                    forall|k: int|
                        0 <= k < tests@.len() ==> #[trigger] tests@[k] == Blk((first + k) as usize),
                    unreachable == Blk((first + variants@.len()) as usize),
                    st1.drop_arms(ptr, tag, merge, first, variants@, 0) == self@.drop_arms(
                        ptr,
                        tag,
                        merge,
                        first,
                        variants@,
                        i as nat,
                    ),
                decreases variants.len() - i,
            {
                let next = if i + 1 < variants.len() {
                    tests[i + 1]
                } else {
                    unreachable
                };
                self.open_arm(tag, i as u32, Ghost(first), Ghost(i as nat), tests[i], next);
                self.emit_drop_slots(ptr, 16, &variants[i].1);
                self.jump(merge);
                i = i + 1;
            }
            self.close_arms(unreachable);
            self.enter(merge);
            self.act(RtSym::AggregateRelease, ptr);
        }
    }

    /// Releases the listed slots of a box.
    pub(crate) fn emit_drop_listed(&mut self, ptr: Val, base: i32, slots: &Vec<(usize, ResolvedTy)>)
        ensures
            final(self)@ == old(self)@.drop_listed(ptr, base, slots@, 0),
    {
        let mut k: usize = 0;
        while k < slots.len()
            invariant
                k <= slots.len(),
                old(self)@.drop_listed(ptr, base, slots@, 0) == self@.drop_listed(
                    ptr,
                    base,
                    slots@,
                    k as nat,
                ),
            decreases slots.len() - k,
        {
            self.emit_drop_field(ptr, slot_offset_of(base, slots[k].0), &slots[k].1);
            k = k + 1;
        }
    }

    /// Releases an enum box whose slots to release are given.
    pub(crate) fn emit_drop_enum_listed(&mut self, ptr: Val, variants: &Vec<DropVariant>)
        ensures
            final(self)@ == old(self)@.drop_enum_listed(ptr, variants@),
    {
        let tag = self.load(ClTy::I32, ptr, 8);
        let merge = self.blk();
        let ghost first = self@.code.len();
        let tests = self.blocks(variants.len());
        let unreachable = self.blk();
        if variants.len() == 0 {
            self.act(RtSym::AggregateRelease, ptr);
        } else {
            self.jump(tests[0]);
            let ghost st1 = self@;
            let mut i: usize = 0;
            while i < variants.len()
                invariant
                    i <= variants.len(),
                    tests@.len() == variants@.len(),
                    forall|k: int|
                        0 <= k < tests@.len() ==> #[trigger] tests@[k] == Blk((first + k) as usize),
                    unreachable == Blk((first + variants@.len()) as usize),
                    st1.drop_arms_listed(ptr, tag, merge, first, variants@, 0)
                        == self@.drop_arms_listed(ptr, tag, merge, first, variants@, i as nat),
                decreases variants.len() - i,
            {
                let next = if i + 1 < variants.len() {
                    tests[i + 1]
                } else {
                    unreachable
                };
                self.open_arm(
                    tag,
                    variants[i].tag,
                    Ghost(first),
                    Ghost(i as nat),
                    tests[i],
                    next,
                );
                self.emit_drop_listed(ptr, 16, &variants[i].fields);
                self.jump(merge);
                i = i + 1;
            }
            self.close_arms(unreachable);
            self.enter(merge);
            self.act(RtSym::AggregateRelease, ptr);
        }
    }

    fn emit_drop_element(&mut self, handle: Val, elem: &ResolvedTy)
        ensures
            final(self)@ == old(self)@.drop_element(handle, *elem),
        decreases elem, 0nat,
    {
        match elem {
            ResolvedTy::Tensor { dtype } => self.act(RtSym::TensorRelease, handle),
            ResolvedTy::Struct { name, fields } => {
                self.emit_drop_slots(handle, 8, fields);
                self.act(RtSym::AggregateRelease, handle);
            },
            ResolvedTy::Enum { name, variants } => self.emit_drop_enum_box(handle, variants),
            ResolvedTy::Array { elem: inner, len } => {
                if owns(inner) {
                    self.emit_counted_drop_loop(handle, inner, *len);
                }
                self.act(RtSym::HeapFree, handle);
            },
            _ => {},
        }
    }

    /// A loop that releases each element of an array.
    pub(crate) fn emit_counted_drop_loop(&mut self, arr: Val, elem: &ResolvedTy, len: usize)
        ensures
            final(self)@ == old(self)@.counted_drop(arr, *elem, len),
        decreases elem, 1nat,
    {
        let var = self.index_var();
        let header = self.blk();
        let body = self.blk();
        let exit = self.blk();
        self.jump(header);
        self.switch_to(header);
        let cur = self.read_var(var);
        let limit = self.iconst(ClTy::I64, len as i64);
        self.test_index(cur, limit, body, exit);
        self.enter(body);
        let at = self.read_var(var);
        let addr = self.slot_addr(arr, at, 0);
        let handle = self.load(ClTy::I64, addr, 0);
        self.emit_drop_element(handle, elem);
        self.advance(var, header);
        self.seal(header);
        self.enter(exit);
    }

    /// A loop that releases each tensor of a list.
    fn emit_list_element_drop_loop(&mut self, list: Val, len: Val)
        ensures
            final(self)@ == old(self)@.list_drop(list, len),
    {
        let var = self.index_var();
        let header = self.blk();
        let body = self.blk();
        let exit = self.blk();
        self.jump(header);
        self.switch_to(header);
        let cur = self.read_var(var);
        self.test_index(cur, len, body, exit);
        self.enter(body);
        let at = self.read_var(var);
        let addr = self.slot_addr(list, at, 16);
        let handle = self.load(ClTy::I64, addr, 0);
        self.act(RtSym::TensorRelease, handle);
        self.advance(var, header);
        self.seal(header);
        self.enter(exit);
    }

    /// Gives up one reference to a list.
    pub(crate) fn emit_drop_list(&mut self, ptr: Val, elem: &ResolvedTy)
        ensures
            final(self)@ == old(self)@.drop_list(ptr, *elem),
    {
        let count = self.load(ClTy::I64, ptr, 0);
        let one = self.iconst(ClTy::I64, 1);
        let is_last = self.int_test(IntCc::Equal, count, one);
        let last = self.blk();
        let merge = self.blk();
        self.brif(is_last, last, merge);
        self.enter(last);
        if elem.is_tensor() {
            let len = self.load(ClTy::I64, ptr, 8);
            self.emit_list_element_drop_loop(ptr, len);
        }
        self.jump(merge);
        self.enter(merge);
        self.act(RtSym::ListRelease, ptr);
    }
}

} // verus!
