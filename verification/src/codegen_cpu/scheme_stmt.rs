//! The translation scheme for statements and for releasing what a value owns.

use crate::codegen_cpu::inst::{Arith, Blk, ClTy, Inst, IntCc, Val, Var};
use crate::codegen_cpu::state;
use crate::codegen_cpu::state::{EnvView, Fail, St};
use crate::codegen_cpu::symbols::RtSym;
use crate::typed::{
    DropVariant, ResolvedTy, TypedAssignTarget, TypedExpr, TypedMatchArm, TypedStmt,
};
use vstd::prelude::*;

verus! {

/// What lowering a statement gives: the extended state and whether control
/// leaves the current block for good.
pub type Step = Result<(St, bool), Fail>;

/// Where `continue` and `break` go in the innermost loop.
pub type LoopExits = Option<(Blk, Blk)>;

impl ResolvedTy {
    /// Whether elements of this type have something to release.
    pub open spec fn owns(self) -> bool {
        self is Tensor || self is Struct || self is Enum || self is Array
    }
}

impl St {
    pub open spec fn switch_to(self, target: Blk) -> St {
        self.emit(Inst::SwitchTo { target })
    }

    pub open spec fn seal(self, target: Blk) -> St {
        self.emit(Inst::Seal { target })
    }

    pub open spec fn jump(self, target: Blk) -> St {
        self.emit(Inst::Jump { target })
    }

    /// Continues in a block that no later jump will reach.
    pub open spec fn enter(self, target: Blk) -> St {
        self.switch_to(target).seal(target)
    }

    pub open spec fn def_var(self, var: Var, v: Val) -> St {
        self.emit(Inst::DefVar { var, val: v })
    }

    pub open spec fn read_var(self, var: Var) -> (St, Val) {
        self.val(Inst::UseVar { var })
    }

    pub open spec fn int_test(self, icc: IntCc, lhs: Val, rhs: Val) -> (St, Val) {
        self.val(Inst::IntCompare { icc, lhs, rhs })
    }

    pub open spec fn brif(self, cond: Val, then_blk: Blk, else_blk: Blk) -> St {
        self.emit(Inst::Brif { cond, then_blk, else_blk })
    }

    /// A runtime call whose result is not used.
    pub open spec fn act(self, sym: RtSym, v: Val) -> St {
        self.rt(sym, seq![v]).0
    }

    /// Declares `n` blocks.
    pub open spec fn blocks(self, n: nat) -> St
        decreases n,
    {
        if n == 0 {
            self
        } else {
            self.blocks((n - 1) as nat).emit(Inst::Block)
        }
    }

    /// Declares an index variable that starts at zero.
    pub open spec fn index_var(self) -> (St, Var) {
        let (st, var) = self.declare(ClTy::I64);
        let (st, zero) = st.iconst(ClTy::I64, 0);
        (st.def_var(var, zero), var)
    }

    /// Adds one to an index variable and goes back to the loop header.
    pub open spec fn advance(self, var: Var, header: Blk) -> St {
        let (st, cur) = self.read_var(var);
        let (st, one) = st.iconst(ClTy::I64, 1);
        let (st, next) = st.arith(Arith::Iadd, cur, one);
        st.def_var(var, next).jump(header)
    }

    /// Branches on an index variable being below a limit.
    pub open spec fn test_index(self, cur: Val, limit: Val, body: Blk, exit: Blk) -> St {
        let (st, below) = self.int_test(IntCc::SignedLessThan, cur, limit);
        st.brif(below, body, exit)
    }

    /// Tests a tag and enters the body of the arm for it; `first` is the test
    /// block of the first arm, the test blocks follow each other and the
    /// fallback block follows the last.
    pub open spec fn open_arm(self, tag: Val, expected: u32, first: nat, i: nat) -> St {
        let test = Blk((first + i) as usize);
        let next = Blk((first + i + 1) as usize);
        let (st, body) = self.blk();
        let st = st.enter(test);
        let (st, want) = st.iconst(ClTy::I32, expected as int);
        let (st, hit) = st.int_test(IntCc::Equal, tag, want);
        st.brif(hit, body, next).enter(body)
    }

    /// The fallback block of a tag switch, which is never reached.
    pub open spec fn close_arms(self, unreachable: Blk) -> St {
        self.enter(unreachable).emit(Inst::Trap)
    }

    /// Releases the value at a byte offset of a box.
    pub open spec fn drop_field(self, base: Val, offset: i32, ty: ResolvedTy) -> St
        decreases ty, 0nat,
    {
        match ty {
            ResolvedTy::Tensor { dtype } => {
                let (st, handle) = self.load(ClTy::I64, base, offset);
                st.act(RtSym::TensorRelease, handle)
            },
            ResolvedTy::Struct { name, fields } => {
                let (st, nested) = self.load(ClTy::I64, base, offset);
                st.drop_slots(nested, 8, fields@, 0).act(RtSym::AggregateRelease, nested)
            },
            ResolvedTy::Enum { name, variants } => {
                let (st, nested) = self.load(ClTy::I64, base, offset);
                st.drop_enum(nested, variants@)
            },
            _ => self,
        }
    }

    /// Releases the fields from position `i` on.
    pub open spec fn drop_slots(self, ptr: Val, base: i32, fields: Seq<(String, ResolvedTy)>, i: nat) -> St
        decreases fields, fields.len() - i,
    {
        if i >= fields.len() {
            self
        } else {
            self.drop_field(ptr, state::slot_offset(base, i), fields[i as int].1).drop_slots(
                ptr,
                base,
                fields,
                i + 1,
            )
        }
    }

    /// Releases an enum box: the fields of the variant it holds, then the box.
    pub open spec fn drop_enum(self, ptr: Val, variants: Seq<(String, Vec<(String, ResolvedTy)>)>) -> St
        decreases variants, variants.len() + 1,
    {
        let (st, tag) = self.load(ClTy::I32, ptr, 8);
        let (st, merge) = st.blk();
        let first = st.code.len();
        let (st, unreachable) = st.blocks(variants.len()).blk();
        if variants.len() == 0 {
            st.act(RtSym::AggregateRelease, ptr)
        } else {
            st.jump(Blk(first as usize)).drop_arms(ptr, tag, merge, first, variants, 0).close_arms(
                unreachable,
            ).enter(merge).act(RtSym::AggregateRelease, ptr)
        }
    }

    pub open spec fn drop_arms(
        self,
        ptr: Val,
        tag: Val,
        merge: Blk,
        first: nat,
        variants: Seq<(String, Vec<(String, ResolvedTy)>)>,
        i: nat,
    ) -> St
        decreases variants, variants.len() - i,
    {
        if i >= variants.len() {
            self
        } else {
            self.open_arm(tag, i as u32, first, i).drop_slots(
                ptr,
                16,
                variants[i as int].1@,
                0,
            ).jump(merge).drop_arms(ptr, tag, merge, first, variants, i + 1)
        }
    }

    /// Releases the listed slots from position `k` on.
    pub open spec fn drop_listed(self, ptr: Val, base: i32, slots: Seq<(usize, ResolvedTy)>, k: nat) -> St
        decreases slots.len() - k,
    {
        if k >= slots.len() {
            self
        } else {
            self.drop_field(
                ptr,
                state::slot_offset(base, slots[k as int].0 as nat),
                slots[k as int].1,
            ).drop_listed(ptr, base, slots, k + 1)
        }
    }

    /// As [`St::drop_enum`], with the slots to release given.
    pub open spec fn drop_enum_listed(self, ptr: Val, variants: Seq<DropVariant>) -> St {
        let (st, tag) = self.load(ClTy::I32, ptr, 8);
        let (st, merge) = st.blk();
        let first = st.code.len();
        let (st, unreachable) = st.blocks(variants.len()).blk();
        if variants.len() == 0 {
            st.act(RtSym::AggregateRelease, ptr)
        } else {
            st.jump(Blk(first as usize)).drop_arms_listed(
                ptr,
                tag,
                merge,
                first,
                variants,
                0,
            ).close_arms(unreachable).enter(merge).act(RtSym::AggregateRelease, ptr)
        }
    }

    pub open spec fn drop_arms_listed(
        self,
        ptr: Val,
        tag: Val,
        merge: Blk,
        first: nat,
        variants: Seq<DropVariant>,
        i: nat,
    ) -> St
        decreases variants.len() - i,
    {
        if i >= variants.len() {
            self
        } else {
            self.open_arm(tag, variants[i as int].tag, first, i).drop_listed(
                ptr,
                16,
                variants[i as int].fields@,
                0,
            ).jump(merge).drop_arms_listed(ptr, tag, merge, first, variants, i + 1)
        }
    }

    /// Releases one array element, given its handle.
    pub open spec fn drop_element(self, handle: Val, elem: ResolvedTy) -> St
        decreases elem, 0nat,
    {
        match elem {
            ResolvedTy::Tensor { dtype } => self.act(RtSym::TensorRelease, handle),
            ResolvedTy::Struct { name, fields } => self.drop_slots(handle, 8, fields@, 0).act(
                RtSym::AggregateRelease,
                handle,
            ),
            ResolvedTy::Enum { name, variants } => self.drop_enum(handle, variants@),
            ResolvedTy::Array { elem: inner, len } => {
                let st = if inner.owns() {
                    self.counted_drop(handle, *inner, len)
                } else {
                    self
                };
                st.act(RtSym::HeapFree, handle)
            },
            _ => self,
        }
    }

    /// A loop that releases each element of an array.
    pub open spec fn counted_drop(self, arr: Val, elem: ResolvedTy, len: usize) -> St
        decreases elem, 1nat,
    {
        let (st, var) = self.index_var();
        let (st, header) = st.blk();
        let (st, body) = st.blk();
        let (st, exit) = st.blk();
        let st = st.jump(header).switch_to(header);
        let (st, cur) = st.read_var(var);
        let (st, limit) = st.val(Inst::Iconst { ty: ClTy::I64, imm: len as i64 });
        let st = st.test_index(cur, limit, body, exit).enter(body);
        let (st, at) = st.read_var(var);
        let (st, addr) = st.slot_addr(arr, at, 0);
        let (st, handle) = st.load(ClTy::I64, addr, 0);
        st.drop_element(handle, elem).advance(var, header).seal(header).enter(exit)
    }

    /// A loop that releases each tensor of a list of `len` elements.
    pub open spec fn list_drop(self, list: Val, len: Val) -> St {
        let (st, var) = self.index_var();
        let (st, header) = st.blk();
        let (st, body) = st.blk();
        let (st, exit) = st.blk();
        let st = st.jump(header).switch_to(header);
        let (st, cur) = st.read_var(var);
        let st = st.test_index(cur, len, body, exit).enter(body);
        let (st, at) = st.read_var(var);
        let (st, addr) = st.slot_addr(list, at, 16);
        let (st, handle) = st.load(ClTy::I64, addr, 0);
        st.act(RtSym::TensorRelease, handle).advance(var, header).seal(header).enter(exit)
    }

    /// Gives up one reference to a list; the elements go first when it is the
    /// last one.
    pub open spec fn drop_list(self, ptr: Val, elem: ResolvedTy) -> St {
        let (st, count) = self.load(ClTy::I64, ptr, 0);
        let (st, one) = st.iconst(ClTy::I64, 1);
        let (st, is_last) = st.int_test(IntCc::Equal, count, one);
        let (st, last) = st.blk();
        let (st, merge) = st.blk();
        let st = st.brif(is_last, last, merge).enter(last);
        let st = if elem is Tensor {
            let (st, len) = st.load(ClTy::I64, ptr, 8);
            st.list_drop(ptr, len)
        } else {
            st
        };
        st.jump(merge).enter(merge).act(RtSym::ListRelease, ptr)
    }

    /// Binds the fields of a tuple from position `i` on.
    pub open spec fn bind_fields(
        self,
        ptr: Val,
        names: Seq<(String, ResolvedTy)>,
        i: nat,
        retain: bool,
    ) -> St
        decreases names.len() - i,
    {
        if i >= names.len() {
            self
        } else {
            let (name, ty) = names[i as int];
            let st = match ty.machine() {
                None => self,
                Some(t) => {
                    let (st, v) = self.load(t, ptr, state::slot_offset(8, i));
                    let st = if retain && ty is Tensor {
                        st.act(RtSym::TensorRetain, v)
                    } else {
                        st
                    };
                    st.bind_new(name@, t, v)
                },
            };
            st.bind_fields(ptr, names, i + 1, retain)
        }
    }

    /// Binds the payload of a matched variant from position `j` on.
    pub open spec fn bind_payload(self, ptr: Val, bindings: Seq<(String, ResolvedTy)>, j: nat) -> St
        decreases bindings.len() - j,
    {
        if j >= bindings.len() {
            self
        } else {
            let (name, ty) = bindings[j as int];
            let st = match ty.machine() {
                None => self,
                Some(t) => {
                    let (st, v) = self.load(t, ptr, state::slot_offset(16, j));
                    st.bind_new(name@, t, v)
                },
            };
            st.bind_payload(ptr, bindings, j + 1)
        }
    }

    /// A statement that only acts on the variable a name is bound to.
    pub open spec fn act_on(self, name: Seq<char>, sym: RtSym) -> Step {
        match self.use_var(name) {
            Err(x) => Err(x),
            Ok((st, v)) => Ok((st.act(sym, v), false)),
        }
    }

    /// A store into an element slot: compute the address, then the new value,
    /// release what the slot held, and write.
    pub open spec fn assign_slot(
        self,
        env: EnvView,
        base: Seq<char>,
        index: TypedExpr,
        elem_ty: ResolvedTy,
        header: i64,
        e: TypedExpr,
    ) -> Step {
        match self.use_var(base) {
            Err(x) => Err(x),
            Ok((st, ptr)) => match st.expr(env, index) {
                Err(x) => Err(x),
                Ok((st, i)) => {
                    let (st, addr) = st.slot_addr(ptr, i, header);
                    match st.expr(env, e) {
                        Err(x) => Err(x),
                        Ok((st, v)) => Ok(
                            (st.drop_field(addr, 0, elem_ty).store(v, addr, 0), false),
                        ),
                    }
                },
            },
        }
    }

    pub open spec fn assign(self, env: EnvView, target: TypedAssignTarget, e: TypedExpr) -> Step {
        match target {
            TypedAssignTarget::Ident(name) => match self.expr(env, e) {
                Err(x) => Err(x),
                Ok((st, v)) => if st.vars.contains_key(name@) {
                    Ok((st.def_var(st.vars[name@], v), false))
                } else {
                    Err(Fail::UnsupportedExpr("assign to unknown variable: "@ + name@))
                },
            },
            TypedAssignTarget::Index { base, index, elem_ty } => self.assign_slot(
                env,
                base@,
                *index,
                elem_ty,
                0,
                e,
            ),
            TypedAssignTarget::ListIndex { base, index, elem_ty } => self.assign_slot(
                env,
                base@,
                *index,
                elem_ty,
                16,
                e,
            ),
            TypedAssignTarget::Field { base, slot_idx, field_ty } => match self.use_var(base@) {
                Err(x) => Err(x),
                Ok((st, ptr)) => match st.expr(env, e) {
                    Err(x) => Err(x),
                    Ok((st, v)) => {
                        let offset = state::slot_offset(8, slot_idx as nat);
                        Ok((st.drop_field(ptr, offset, field_ty).store(v, ptr, offset), false))
                    },
                },
            },
            TypedAssignTarget::BufferIndex { base, index, elem_ty } => match self.use_var(base@) {
                Err(x) => Err(x),
                Ok((st, handle)) => match st.expr(env, *index) {
                    Err(x) => Err(x),
                    Ok((st, i)) => match st.expr(env, e) {
                        Err(x) => Err(x),
                        Ok((st, v)) => Ok(
                            (st.rt(RtSym::BufferSetI32, seq![handle, i, v]).0, false),
                        ),
                    },
                },
            },
        }
    }

    /// A statement.
    pub open spec fn stmt(self, env: EnvView, exits: LoopExits, s: TypedStmt) -> Step
        decreases s, 1nat,
    {
        match s {
            TypedStmt::Let { name, expr } => match self.expr(env, expr) {
                Err(x) => Err(x),
                Ok((st, v)) => match expr.ty.machine() {
                    None => Ok((st, false)),
                    Some(t) => Ok((st.bind_new(name@, t, v), false)),
                },
            },
            TypedStmt::Return { expr } => match self.expr(env, expr) {
                Err(x) => Err(x),
                Ok((st, v)) => {
                    let st = if expr.ty is List && expr.kind is FieldAccess {
                        st.act(RtSym::AggregateRetain, v)
                    } else {
                        st
                    };
                    Ok((st.emit(Inst::Return { val: v }), true))
                },
            },
            TypedStmt::Expr(e) => match self.expr(env, e) {
                Err(x) => Err(x),
                Ok((st, v)) => Ok((st, false)),
            },
            TypedStmt::Assign { target, expr } => self.assign(env, target, expr),
            TypedStmt::GpuBarrier => Ok((self.rt(RtSym::GpuBarrier, seq![]).0, false)),
            TypedStmt::If { condition, then_body, else_body } => self.if_stmt(env, exits, s),
            TypedStmt::For { var, start, end, body } => self.for_stmt(env, s),
            TypedStmt::While { condition, body } => self.while_stmt(env, s),
            TypedStmt::ForIn { var, iter, body } => self.for_in_stmt(env, s),
            TypedStmt::Break => match exits {
                Some((_, to)) => Ok((self.jump(to), true)),
                None => Err(Fail::UnsupportedExpr("break outside loop"@)),
            },
            TypedStmt::Continue => match exits {
                Some((to, _)) => Ok((self.jump(to), true)),
                None => Err(Fail::UnsupportedExpr("continue outside loop"@)),
            },
            TypedStmt::Drop { name } => self.act_on(name@, RtSym::TensorFree),
            TypedStmt::Retain { name } => self.act_on(name@, RtSym::TensorRetain),
            TypedStmt::Release { name } => self.act_on(name@, RtSym::TensorRelease),
            TypedStmt::RetainAgg { name } => self.act_on(name@, RtSym::AggregateRetain),
            TypedStmt::ReleaseAgg { name } => self.act_on(name@, RtSym::AggregateRelease),
            TypedStmt::DropBuffer { name } => self.act_on(name@, RtSym::BufferFree),
            TypedStmt::DropStruct { name, droppable_fields } => self.drop_box(
                name@,
                droppable_fields@,
            ),
            TypedStmt::DropTuple { name, droppable_fields } => self.drop_box(
                name@,
                droppable_fields@,
            ),
            TypedStmt::DropEnum { name, variants } => match self.use_var(name@) {
                Err(x) => Err(x),
                Ok((st, ptr)) => Ok((st.drop_enum_listed(ptr, variants@), false)),
            },
            TypedStmt::DropArray { name, elem_ty, len } => match self.use_var(name@) {
                Err(x) => Err(x),
                Ok((st, ptr)) => {
                    let st = if elem_ty.owns() {
                        st.counted_drop(ptr, elem_ty, len)
                    } else {
                        st
                    };
                    Ok((st.act(RtSym::HeapFree, ptr), false))
                },
            },
            TypedStmt::DropList { name, elem_ty } => match self.use_var(name@) {
                Err(x) => Err(x),
                Ok((st, ptr)) => Ok((st.drop_list(ptr, elem_ty), false)),
            },
            TypedStmt::LetTuple { names, expr } => match self.expr(env, expr) {
                Err(x) => Err(x),
                Ok((st, ptr)) => {
                    let st = st.bind_fields(ptr, names@, 0, expr.kind is Ident);
                    if expr.kind is Ident {
                        Ok((st, false))
                    } else {
                        Ok((st.act(RtSym::AggregateRelease, ptr), false))
                    }
                },
            },
            TypedStmt::Match { scrutinee, arms } => self.match_stmt(env, exits, s),
            TypedStmt::NoGrad { body } => {
                let st = self.rt(RtSym::TapePause, seq![]).0;
                match st.all(env, exits, body@, 0) {
                    Err(x) => Err(x),
                    Ok(st) => Ok((st.rt(RtSym::TapeResume, seq![]).0, false)),
                }
            },
            TypedStmt::LetShared { name, elem_ty, size } => Err(
                Fail::UnsupportedExpr("LetShared is only valid in kernel bodies"@),
            ),
        }
    }

    /// A struct or tuple that goes out of scope: the listed slots, then the
    /// box.
    pub open spec fn drop_box(self, name: Seq<char>, slots: Seq<(usize, ResolvedTy)>) -> Step {
        match self.use_var(name) {
            Err(x) => Err(x),
            Ok((st, ptr)) => Ok(
                (st.drop_listed(ptr, 8, slots, 0).act(RtSym::AggregateRelease, ptr), false),
            ),
        }
    }

    /// Statements from position `i` on, up to one that leaves the block.
    pub open spec fn body(self, env: EnvView, exits: LoopExits, b: Seq<TypedStmt>, i: nat) -> Step
        decreases b, b.len() - i,
    {
        if i >= b.len() {
            Ok((self, false))
        } else {
            match self.stmt(env, exits, b[i as int]) {
                Err(x) => Err(x),
                Ok((st, true)) => Ok((st, true)),
                Ok((st, false)) => st.body(env, exits, b, i + 1),
            }
        }
    }

    /// All statements from position `i` on.
    pub open spec fn all(self, env: EnvView, exits: LoopExits, b: Seq<TypedStmt>, i: nat) -> Result<
        St,
        Fail,
    >
        decreases b, b.len() - i,
    {
        if i >= b.len() {
            Ok(self)
        } else {
            match self.stmt(env, exits, b[i as int]) {
                Err(x) => Err(x),
                Ok((st, _)) => st.all(env, exits, b, i + 1),
            }
        }
    }

    /// Statements that fall through to a block unless they leave for good.
    pub open spec fn body_into(self, env: EnvView, exits: LoopExits, b: Seq<TypedStmt>, target: Blk) -> Step
        decreases b, b.len() + 1,
    {
        match self.body(env, exits, b, 0) {
            Err(x) => Err(x),
            Ok((st, true)) => Ok((st, true)),
            Ok((st, false)) => Ok((st.jump(target), false)),
        }
    }

    pub open spec fn if_stmt(self, env: EnvView, exits: LoopExits, s: TypedStmt) -> Step
        decreases s, 0nat,
    {
        match s {
            TypedStmt::If { condition, then_body, else_body } => match self.expr(env, condition) {
                Err(x) => Err(x),
                Ok((st, cond)) => {
                    let (st, then_blk) = st.blk();
                    let (st, merge) = st.blk();
                    match else_body {
                        None => {
                            let st = st.brif(cond, then_blk, merge).switch_to(then_blk);
                            match st.body_into(env, exits, then_body@, merge) {
                                Err(x) => Err(x),
                                Ok((st, _)) => Ok((st.switch_to(merge), false)),
                            }
                        },
                        Some(eb) => {
                            let (st, else_blk) = st.blk();
                            let st = st.brif(cond, then_blk, else_blk).switch_to(then_blk);
                            match st.body_into(env, exits, then_body@, merge) {
                                Err(x) => Err(x),
                                Ok((st, then_left)) => {
                                    let st = st.switch_to(else_blk);
                                    match st.body_into(env, exits, eb@, merge) {
                                        Err(x) => Err(x),
                                        Ok((st, else_left)) => if then_left && else_left {
                                            Ok((st, true))
                                        } else {
                                            Ok((st.switch_to(merge), false))
                                        },
                                    }
                                },
                            }
                        },
                    }
                },
            },
            _ => Err(Fail::UnsupportedExpr(""@)),
        }
    }

    pub open spec fn for_stmt(self, env: EnvView, s: TypedStmt) -> Step
        decreases s, 0nat,
    {
        match s {
            TypedStmt::For { var, start, end, body } => {
                let (st, counter) = self.declare(ClTy::I64);
                match st.expr(env, start) {
                    Err(x) => Err(x),
                    Ok((st, from)) => {
                        let st = st.def_var(counter, from).bind(var@, counter);
                        let (st, header) = st.blk();
                        let (st, body_blk) = st.blk();
                        let (st, incr) = st.blk();
                        let (st, exit) = st.blk();
                        let st = st.jump(header).switch_to(header);
                        let (st, cur) = st.read_var(counter);
                        match st.expr(env, end) {
                            Err(x) => Err(x),
                            Ok((st, limit)) => {
                                let st = st.test_index(cur, limit, body_blk, exit).switch_to(
                                    body_blk,
                                );
                                match st.body_into(env, Some((incr, exit)), body@, incr) {
                                    Err(x) => Err(x),
                                    Ok((st, _)) => Ok(
                                        (
                                            st.switch_to(incr).advance(counter, header).switch_to(
                                                exit,
                                            ),
                                            false,
                                        ),
                                    ),
                                }
                            },
                        }
                    },
                }
            },
            _ => Err(Fail::UnsupportedExpr(""@)),
        }
    }

    pub open spec fn while_stmt(self, env: EnvView, s: TypedStmt) -> Step
        decreases s, 0nat,
    {
        match s {
            TypedStmt::While { condition, body } => {
                let (st, header) = self.blk();
                let (st, body_blk) = st.blk();
                let (st, exit) = st.blk();
                let st = st.jump(header).switch_to(header);
                match st.expr(env, condition) {
                    Err(x) => Err(x),
                    Ok((st, cond)) => {
                        let st = st.brif(cond, body_blk, exit).switch_to(body_blk);
                        match st.body_into(env, Some((header, exit)), body@, header) {
                            Err(x) => Err(x),
                            Ok((st, _)) => Ok((st.switch_to(exit), false)),
                        }
                    },
                }
            },
            _ => Err(Fail::UnsupportedExpr(""@)),
        }
    }

    /// Length and first element offset of what a `for`-`in` loop walks.
    pub open spec fn walk_range(self, ptr: Val, ty: ResolvedTy) -> Option<(St, Val, i64, ResolvedTy)> {
        match ty {
            ResolvedTy::Array { elem, len } => {
                let (st, n) = self.val(Inst::Iconst { ty: ClTy::I64, imm: len as i64 });
                Some((st, n, 0i64, *elem))
            },
            ResolvedTy::List { elem } => {
                let (st, n) = self.load(ClTy::I64, ptr, 8);
                Some((st, n, 16i64, *elem))
            },
            _ => None,
        }
    }

    pub open spec fn for_in_stmt(self, env: EnvView, s: TypedStmt) -> Step
        decreases s, 0nat,
    {
        match s {
            TypedStmt::ForIn { var, iter, body } => match self.expr(env, iter) {
                Err(x) => Err(x),
                Ok((st, ptr)) => match st.walk_range(ptr, iter.ty) {
                    None => Err(Fail::UnsupportedExpr("ForIn requires Array or List type"@)),
                    Some((st, len, header_bytes, elem)) => match elem.machine() {
                        None => Err(Fail::UnsupportedExpr("ForIn: unit-typed element"@)),
                        Some(t) => {
                            let (st, item) = st.declare(t);
                            let st = st.bind(var@, item);
                            let (st, index) = st.index_var();
                            let (st, header) = st.blk();
                            let (st, body_blk) = st.blk();
                            let (st, incr) = st.blk();
                            let (st, exit) = st.blk();
                            let st = st.jump(header).switch_to(header);
                            let (st, cur) = st.read_var(index);
                            let st = st.test_index(cur, len, body_blk, exit).switch_to(body_blk);
                            let (st, at) = st.read_var(index);
                            let (st, eight) = st.iconst(ClTy::I64, 8);
                            let (st, off) = st.arith(Arith::Imul, at, eight);
                            let (st, off) = st.val(Inst::IaddImm { val: off, imm: header_bytes });
                            let (st, addr) = st.arith(Arith::Iadd, ptr, off);
                            let (st, v) = st.load(t, addr, 0);
                            let st = st.def_var(item, v);
                            match st.body_into(env, Some((incr, exit)), body@, incr) {
                                Err(x) => Err(x),
                                Ok((st, _)) => Ok(
                                    (
                                        st.switch_to(incr).advance(index, header).switch_to(exit),
                                        false,
                                    ),
                                ),
                            }
                        },
                    },
                },
            },
            _ => Err(Fail::UnsupportedExpr(""@)),
        }
    }

    /// The arms of a match from position `i` on; also tells whether every arm
    /// so far leaves for good.
    pub open spec fn arms(
        self,
        env: EnvView,
        exits: LoopExits,
        ptr: Val,
        tag: Val,
        merge: Blk,
        first: nat,
        arms: Seq<TypedMatchArm>,
        i: nat,
        all_left: bool,
    ) -> Step
        decreases arms, arms.len() - i,
    {
        if i >= arms.len() {
            Ok((self, all_left))
        } else {
            let arm = arms[i as int];
            let st = self.open_arm(tag, arm.variant_index, first, i).bind_payload(
                ptr,
                arm.bindings@,
                0,
            );
            match st.body_into(env, exits, arm.body@, merge) {
                Err(x) => Err(x),
                Ok((st, left)) => st.arms(
                    env,
                    exits,
                    ptr,
                    tag,
                    merge,
                    first,
                    arms,
                    i + 1,
                    all_left && left,
                ),
            }
        }
    }

    /// A match: a chain of tag tests, one per arm, and a fallback that is
    /// never reached.
    pub open spec fn match_stmt(self, env: EnvView, exits: LoopExits, s: TypedStmt) -> Step
        decreases s, 0nat,
    {
        match s {
            TypedStmt::Match { scrutinee, arms } => match self.expr(env, scrutinee) {
                Err(x) => Err(x),
                Ok((st, ptr)) => {
                    let (st, tag) = st.load(ClTy::I32, ptr, 8);
                    let (st, merge) = st.blk();
                    let first = st.code.len();
                    let (st, unreachable) = st.blocks(arms@.len()).blk();
                    let st = if arms@.len() > 0 {
                        st.jump(Blk(first as usize))
                    } else {
                        st
                    };
                    match st.arms(env, exits, ptr, tag, merge, first, arms@, 0, true) {
                        Err(x) => Err(x),
                        Ok((st, all_left)) => {
                            let st = st.close_arms(unreachable);
                            Ok(
                                (
                                    if all_left {
                                        st
                                    } else {
                                        st.enter(merge)
                                    },
                                    all_left,
                                ),
                            )
                        },
                    }
                },
            },
            _ => Err(Fail::UnsupportedExpr(""@)),
        }
    }
}

} // verus!
