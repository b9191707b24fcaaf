//! Lowering of statements.

use crate::codegen_cpu::inst::{cranelift_type, Arith, Blk, ClTy, Inst, Val};
use crate::codegen_cpu::lower_drop::owns;
use crate::codegen_cpu::scheme_stmt::{LoopExits, Step};
use crate::codegen_cpu::state;
use crate::codegen_cpu::state::{
    slot_offset_of, unsupported, unsupported_msg, CodegenError, Env, Fail, FnTranslator, St,
};
use crate::codegen_cpu::symbols::RtSym;
use crate::typed::{
    ResolvedTy, TypedAssignTarget, TypedExpr, TypedExprKind, TypedMatchArm, TypedStmt,
};
use vstd::prelude::*;

verus! {

/// Whether what lowering a statement returned is what the scheme prescribes.
pub open spec fn steps(r: Result<bool, CodegenError>, st: St, want: Step) -> bool {
    match r {
        Ok(left) => want == Ok::<(St, bool), Fail>((st, left)),
        Err(e) => want == Err::<(St, bool), Fail>(e@),
    }
}

fn is_ident(e: &TypedExpr) -> (r: bool)
    ensures
        r == (e.kind is Ident),
{
    matches!(e.kind, TypedExprKind::Ident(_))
}

fn is_field_access(e: &TypedExpr) -> (r: bool)
    ensures
        r == (e.kind is FieldAccess),
{
    matches!(e.kind, TypedExprKind::FieldAccess { .. })
}

impl FnTranslator {
    fn bind_fields(&mut self, ptr: Val, names: &Vec<(String, ResolvedTy)>, retain: bool)
        ensures
            final(self)@ == old(self)@.bind_fields(ptr, names@, 0, retain),
    {
        let mut i: usize = 0;
        while i < names.len()
            invariant
                i <= names.len(),
                old(self)@.bind_fields(ptr, names@, 0, retain) == self@.bind_fields(
                    ptr,
                    names@,
                    i as nat,
                    retain,
                ),
            decreases names.len() - i,
        {
            match cranelift_type(&names[i].1) {
                None => {},
                Some(t) => {
                    let v = self.load(t, ptr, slot_offset_of(8, i));
                    if retain && names[i].1.is_tensor() {
                        self.act(RtSym::TensorRetain, v);
                    }
                    self.bind_new(&names[i].0, t, v);
                },
            }
            i = i + 1;
        }
    }

    fn bind_payload(&mut self, ptr: Val, bindings: &Vec<(String, ResolvedTy)>)
        ensures
            final(self)@ == old(self)@.bind_payload(ptr, bindings@, 0),
    {
        let mut j: usize = 0;
        while j < bindings.len()
            invariant
                j <= bindings.len(),
                old(self)@.bind_payload(ptr, bindings@, 0) == self@.bind_payload(
                    ptr,
                    bindings@,
                    j as nat,
                ),
            decreases bindings.len() - j,
        {
            match cranelift_type(&bindings[j].1) {
                None => {},
                Some(t) => {
                    let v = self.load(t, ptr, slot_offset_of(16, j));
                    self.bind_new(&bindings[j].0, t, v);
                },
            }
            j = j + 1;
        }
    }

    fn act_on(&mut self, name: &String, sym: RtSym) -> (r: Result<bool, CodegenError>)
        ensures
            steps(r, final(self)@, old(self)@.act_on(name@, sym)),
    {
        match self.use_var(name) {
            Ok(v) => {
                self.act(sym, v);
                Ok(false)
            },
            Err(x) => Err(x),
        }
    }

    fn assign_slot(
        &mut self,
        env: &Env,
        base: &String,
        index: &TypedExpr,
        elem_ty: &ResolvedTy,
        header: i64,
        e: &TypedExpr,
    ) -> (r: Result<bool, CodegenError>)
        ensures
            steps(
                r,
                final(self)@,
                old(self)@.assign_slot(env@, base@, *index, *elem_ty, header, *e),
            ),
    {
        let ptr = self.use_var(base)?;
        let i = self.lower_expr(env, index)?;
        let addr = self.slot_addr(ptr, i, header);
        let v = self.lower_expr(env, e)?;
        self.emit_drop_field(addr, 0, elem_ty);
        self.store(v, addr, 0);
        Ok(false)
    }

    fn lower_assign(&mut self, env: &Env, target: &TypedAssignTarget, e: &TypedExpr) -> (r: Result<
        bool,
        CodegenError,
    >)
        ensures
            steps(r, final(self)@, old(self)@.assign(env@, *target, *e)),
    {
        match target {
            TypedAssignTarget::Ident(name) => {
                let v = self.lower_expr(env, e)?;
                match self.vars.get(name.as_str()) {
                    Some(var) => {
                        let var = *var;
                        self.def_var(var, v);
                        Ok(false)
                    },
                    None => Err(unsupported("assign to unknown variable: ", name.as_str())),
                }
            },
            TypedAssignTarget::Index { base, index, elem_ty } => self.assign_slot(
                env,
                base,
                index,
                elem_ty,
                0,
                e,
            ),
            TypedAssignTarget::ListIndex { base, index, elem_ty } => self.assign_slot(
                env,
                base,
                index,
                elem_ty,
                16,
                e,
            ),
            TypedAssignTarget::Field { base, slot_idx, field_ty } => {
                let ptr = self.use_var(base)?;
                let v = self.lower_expr(env, e)?;
                let offset: i32 = slot_offset_of(8, *slot_idx);
                self.emit_drop_field(ptr, offset, field_ty);
                self.store(v, ptr, offset);
                Ok(false)
            },
            TypedAssignTarget::BufferIndex { base, index, elem_ty } => {
                let handle = self.use_var(base)?;
                let i = self.lower_expr(env, index)?;
                let v = self.lower_expr(env, e)?;
                self.rt3(RtSym::BufferSetI32, handle, i, v);
                Ok(false)
            },
        }
    }

    fn drop_box(&mut self, name: &String, slots: &Vec<(usize, ResolvedTy)>) -> (r: Result<
        bool,
        CodegenError,
    >)
        ensures
            steps(r, final(self)@, old(self)@.drop_box(name@, slots@)),
    {
        match self.use_var(name) {
            Ok(ptr) => {
                self.emit_drop_listed(ptr, 8, slots);
                self.act(RtSym::AggregateRelease, ptr);
                Ok(false)
            },
            Err(x) => Err(x),
        }
    }

    /// Lowers a statement; tells whether control leaves the block for good.
    pub fn lower_stmt(&mut self, env: &Env, exits: LoopExits, s: &TypedStmt) -> (r: Result<
        bool,
        CodegenError,
    >)
        ensures
            steps(r, final(self)@, old(self)@.stmt(env@, exits, *s)),
        decreases s, 1nat,
    {
        match s {
            TypedStmt::Let { name, expr } => match self.lower_expr(env, expr) {
                Err(x) => Err(x),
                Ok(v) => {
                    match cranelift_type(&expr.ty) {
                        None => {},
                        Some(t) => self.bind_new(name, t, v),
                    }
                    Ok(false)
                },
            },
            TypedStmt::Return { expr } => match self.lower_expr(env, expr) {
                Err(x) => Err(x),
                Ok(v) => {
                    if expr.ty.is_list() && is_field_access(expr) {
                        self.act(RtSym::AggregateRetain, v);
                    }
                    self.emit(Inst::Return { val: v });
                    Ok(true)
                },
            },
            TypedStmt::Expr(e) => match self.lower_expr(env, e) {
                Err(x) => Err(x),
                Ok(_) => Ok(false),
            },
            TypedStmt::Assign { target, expr } => self.lower_assign(env, target, expr),
            TypedStmt::GpuBarrier => {
                self.rt0(RtSym::GpuBarrier);
                Ok(false)
            },
            TypedStmt::If { condition, then_body, else_body } => self.lower_if(env, exits, s),
            TypedStmt::For { var, start, end, body } => self.lower_for(env, s),
            TypedStmt::While { condition, body } => self.lower_while(env, s),
            TypedStmt::ForIn { var, iter, body } => self.lower_for_in(env, s),
            TypedStmt::Break => match exits {
                Some((_, to)) => {
                    self.jump(to);
                    Ok(true)
                },
                None => Err(unsupported_msg("break outside loop")),
            },
            TypedStmt::Continue => match exits {
                Some((to, _)) => {
                    self.jump(to);
                    Ok(true)
                },
                None => Err(unsupported_msg("continue outside loop")),
            },
            TypedStmt::Drop { name } => self.act_on(name, RtSym::TensorFree),
            TypedStmt::Retain { name } => self.act_on(name, RtSym::TensorRetain),
            TypedStmt::Release { name } => self.act_on(name, RtSym::TensorRelease),
            TypedStmt::RetainAgg { name } => self.act_on(name, RtSym::AggregateRetain),
            TypedStmt::ReleaseAgg { name } => self.act_on(name, RtSym::AggregateRelease),
            TypedStmt::DropBuffer { name } => self.act_on(name, RtSym::BufferFree),
            TypedStmt::DropStruct { name, droppable_fields } => self.drop_box(
                name,
                droppable_fields,
            ),
            TypedStmt::DropTuple { name, droppable_fields } => self.drop_box(
                name,
                droppable_fields,
            ),
            TypedStmt::DropEnum { name, variants } => match self.use_var(name) {
                Err(x) => Err(x),
                Ok(ptr) => {
                    self.emit_drop_enum_listed(ptr, variants);
                    Ok(false)
                },
            },
            TypedStmt::DropArray { name, elem_ty, len } => match self.use_var(name) {
                Err(x) => Err(x),
                Ok(ptr) => {
                    if owns(elem_ty) {
                        self.emit_counted_drop_loop(ptr, elem_ty, *len);
                    }
                    self.act(RtSym::HeapFree, ptr);
                    Ok(false)
                },
            },
            TypedStmt::DropList { name, elem_ty } => match self.use_var(name) {
                Err(x) => Err(x),
                Ok(ptr) => {
                    self.emit_drop_list(ptr, elem_ty);
                    Ok(false)
                },
            },
            TypedStmt::LetTuple { names, expr } => match self.lower_expr(env, expr) {
                Err(x) => Err(x),
                Ok(ptr) => {
                    let named = is_ident(expr);
                    self.bind_fields(ptr, names, named);
                    if !named {
                        self.act(RtSym::AggregateRelease, ptr);
                    }
                    Ok(false)
                },
            },
            TypedStmt::Match { scrutinee, arms } => self.lower_match(env, exits, s),
            TypedStmt::NoGrad { body } => {
                self.rt0(RtSym::TapePause);
                match self.lower_all(env, exits, body) {
                    Err(x) => Err(x),
                    Ok(_) => {
                        self.rt0(RtSym::TapeResume);
                        Ok(false)
                    },
                }
            },
            TypedStmt::LetShared { name, elem_ty, size } => Err(
                unsupported_msg("LetShared is only valid in kernel bodies"),
            ),
        }
    }

    /// Lowers statements up to one that leaves the block.
    pub fn lower_body(&mut self, env: &Env, exits: LoopExits, b: &Vec<TypedStmt>) -> (r: Result<
        bool,
        CodegenError,
    >)
        ensures
            steps(r, final(self)@, old(self)@.body(env@, exits, b@, 0)),
        decreases b, b@.len(),
    {
        let mut i: usize = 0;
        while i < b.len()
            invariant
                i <= b.len(),
                old(self)@.body(env@, exits, b@, 0) == self@.body(env@, exits, b@, i as nat),
            decreases b.len() - i,
        {
            match self.lower_stmt(env, exits, &b[i]) {
                Err(x) => {
                    return Err(x);
                },
                Ok(left) => {
                    if left {
                        return Ok(true);
                    }
                },
            }
            i = i + 1;
        }
        Ok(false)
    }

    fn lower_all(&mut self, env: &Env, exits: LoopExits, b: &Vec<TypedStmt>) -> (r: Result<
        (),
        CodegenError,
    >)
        ensures
            state::completes(r, final(self)@, old(self)@.all(env@, exits, b@, 0)),
        decreases b, b@.len(),
    {
        let mut i: usize = 0;
        while i < b.len()
            invariant
                i <= b.len(),
                old(self)@.all(env@, exits, b@, 0) == self@.all(env@, exits, b@, i as nat),
            decreases b.len() - i,
        {
            match self.lower_stmt(env, exits, &b[i]) {
                Err(x) => {
                    return Err(x);
                },
                Ok(_) => {},
            }
            i = i + 1;
        }
        Ok(())
    }

    fn lower_body_into(&mut self, env: &Env, exits: LoopExits, b: &Vec<TypedStmt>, target: Blk) -> (r:
        Result<bool, CodegenError>)
        ensures
            steps(r, final(self)@, old(self)@.body_into(env@, exits, b@, target)),
        decreases b, b@.len() + 1,
    {
        match self.lower_body(env, exits, b) {
            Err(x) => Err(x),
            Ok(left) => {
                if !left {
                    self.jump(target);
                }
                Ok(left)
            },
        }
    }

    #[verifier::rlimit(60)]
    #[verifier::spinoff_prover]
    fn lower_if(&mut self, env: &Env, exits: LoopExits, s: &TypedStmt) -> (r: Result<
        bool,
        CodegenError,
    >)
        ensures
            steps(r, final(self)@, old(self)@.if_stmt(env@, exits, *s)),
        decreases s, 0nat,
    {
        match s {
            TypedStmt::If { condition, then_body, else_body } => {
                let cond = self.lower_expr(env, condition)?;
                let then_blk = self.blk();
                let merge = self.blk();
                match else_body {
                    None => {
                        self.brif(cond, then_blk, merge);
                        self.switch_to(then_blk);
                        self.lower_body_into(env, exits, then_body, merge)?;
                        self.switch_to(merge);
                        Ok(false)
                    },
                    Some(eb) => {
                        let else_blk = self.blk();
                        self.brif(cond, then_blk, else_blk);
                        self.switch_to(then_blk);
                        let then_left = self.lower_body_into(env, exits, then_body, merge)?;
                        self.switch_to(else_blk);
                        let else_left = self.lower_body_into(env, exits, eb, merge)?;
                        if then_left && else_left {
                            Ok(true)
                        } else {
                            self.switch_to(merge);
                            Ok(false)
                        }
                    },
                }
            },
            _ => Err(unsupported_msg("")),
        }
    }

    fn lower_for(&mut self, env: &Env, s: &TypedStmt) -> (r: Result<bool, CodegenError>)
        ensures
            steps(r, final(self)@, old(self)@.for_stmt(env@, *s)),
        decreases s, 0nat,
    {
        match s {
            TypedStmt::For { var, start, end, body } => {
                let counter = self.declare(ClTy::I64);
                let from = self.lower_expr(env, start)?;
                self.def_var(counter, from);
                self.bind(var, counter);
                let header = self.blk();
                let body_blk = self.blk();
                let incr = self.blk();
                let exit = self.blk();
                self.jump(header);
                self.switch_to(header);
                let cur = self.read_var(counter);
                let limit = self.lower_expr(env, end)?;
                self.test_index(cur, limit, body_blk, exit);
                self.switch_to(body_blk);
                self.lower_body_into(env, Some((incr, exit)), body, incr)?;
                self.switch_to(incr);
                self.advance(counter, header);
                self.switch_to(exit);
                Ok(false)
            },
            _ => Err(unsupported_msg("")),
        }
    }

    fn lower_while(&mut self, env: &Env, s: &TypedStmt) -> (r: Result<bool, CodegenError>)
        ensures
            steps(r, final(self)@, old(self)@.while_stmt(env@, *s)),
        decreases s, 0nat,
    {
        match s {
            TypedStmt::While { condition, body } => {
                let header = self.blk();
                let body_blk = self.blk();
                let exit = self.blk();
                self.jump(header);
                self.switch_to(header);
                let cond = self.lower_expr(env, condition)?;
                self.brif(cond, body_blk, exit);
                self.switch_to(body_blk);
                self.lower_body_into(env, Some((header, exit)), body, header)?;
                self.switch_to(exit);
                Ok(false)
            },
            _ => Err(unsupported_msg("")),
        }
    }

    fn lower_for_in(&mut self, env: &Env, s: &TypedStmt) -> (r: Result<bool, CodegenError>)
        ensures
            steps(r, final(self)@, old(self)@.for_in_stmt(env@, *s)),
        decreases s, 0nat,
    {
        match s {
            TypedStmt::ForIn { var, iter, body } => {
                let ptr = self.lower_expr(env, iter)?;
                let (len, header_bytes, t) = match &iter.ty {
                    ResolvedTy::Array { elem, len } => {
                        let n = self.iconst(ClTy::I64, *len as i64);
                        (n, 0i64, cranelift_type(elem))
                    },
                    ResolvedTy::List { elem } => {
                        let n = self.load(ClTy::I64, ptr, 8);
                        (n, 16i64, cranelift_type(elem))
                    },
                    _ => {
                        return Err(unsupported_msg("ForIn requires Array or List type"));
                    },
                };
                let t = match t {
                    Some(t) => t,
                    None => {
                        return Err(unsupported_msg("ForIn: unit-typed element"));
                    },
                };
                let item = self.declare(t);
                self.bind(var, item);
                let index = self.index_var();
                let header = self.blk();
                let body_blk = self.blk();
                let incr = self.blk();
                let exit = self.blk();
                self.jump(header);
                self.switch_to(header);
                let cur = self.read_var(index);
                self.test_index(cur, len, body_blk, exit);
                self.switch_to(body_blk);
                let at = self.read_var(index);
                let eight = self.iconst(ClTy::I64, 8);
                let off = self.val(Inst::Arith { op: Arith::Imul, lhs: at, rhs: eight });
                let off = self.val(Inst::IaddImm { val: off, imm: header_bytes });
                let addr = self.val(Inst::Arith { op: Arith::Iadd, lhs: ptr, rhs: off });
                let v = self.load(t, addr, 0);
                self.def_var(item, v);
                self.lower_body_into(env, Some((incr, exit)), body, incr)?;
                self.switch_to(incr);
                self.advance(index, header);
                self.switch_to(exit);
                Ok(false)
            },
            _ => Err(unsupported_msg("")),
        }
    }

    /// Lowers a match.
    fn lower_match(&mut self, env: &Env, exits: LoopExits, s: &TypedStmt) -> (r: Result<
        bool,
        CodegenError,
    >)
        ensures
            steps(r, final(self)@, old(self)@.match_stmt(env@, exits, *s)),
        decreases s, 0nat,
    {
        match s {
            TypedStmt::Match { scrutinee, arms } => {
                let ptr = self.lower_expr(env, scrutinee)?;
                let tag = self.load(ClTy::I32, ptr, 8);
                let merge = self.blk();
                let ghost first = self@.code.len();
                let tests = self.blocks(arms.len());
                let unreachable = self.blk();
                if arms.len() > 0 {
                    self.jump(tests[0]);
                }
                let all_left = self.lower_arms(
                    env,
                    exits,
                    ptr,
                    tag,
                    merge,
                    Ghost(first),
                    &tests,
                    unreachable,
                    arms,
                )?;
                self.close_arms(unreachable);
                if !all_left {
                    self.enter(merge);
                }
                Ok(all_left)
            },
            _ => Err(unsupported_msg("")),
        }
    }

    fn lower_arms(
        &mut self,
        env: &Env,
        exits: LoopExits,
        ptr: Val,
        tag: Val,
        merge: Blk,
        Ghost(first): Ghost<nat>,
        tests: &Vec<Blk>,
        unreachable: Blk,
        arms: &Vec<TypedMatchArm>,
    ) -> (r: Result<bool, CodegenError>)
        requires
            tests@.len() == arms@.len(),
            forall|k: int|
                0 <= k < tests@.len() ==> #[trigger] tests@[k] == Blk((first + k) as usize),
            unreachable == Blk((first + arms@.len()) as usize),
        ensures
            steps(
                r,
                final(self)@,
                old(self)@.arms(env@, exits, ptr, tag, merge, first, arms@, 0, true),
            ),
        decreases arms, arms@.len(),
    {
        let mut all_left = true;
        let mut i: usize = 0;
        while i < arms.len()
            invariant
                i <= arms.len(),
                tests@.len() == arms@.len(),
                forall|k: int|
                    0 <= k < tests@.len() ==> #[trigger] tests@[k] == Blk((first + k) as usize),
                unreachable == Blk((first + arms@.len()) as usize),
                old(self)@.arms(env@, exits, ptr, tag, merge, first, arms@, 0, true)
                    == self@.arms(env@, exits, ptr, tag, merge, first, arms@, i as nat, all_left),
            decreases arms.len() - i,
        {
            let next = if i + 1 < arms.len() {
                tests[i + 1]
            } else {
                unreachable
            };
            self.open_arm(
                tag,
                arms[i].variant_index,
                Ghost(first),
                Ghost(i as nat),
                tests[i],
                next,
            );
            self.bind_payload(ptr, &arms[i].bindings);
            match self.lower_body_into(env, exits, &arms[i].body, merge) {
                Err(x) => {
                    return Err(x);
                },
                Ok(left) => {
                    all_left = all_left && left;
                },
            }
            i = i + 1;
        }
        Ok(all_left)
    }
}

} // verus!
