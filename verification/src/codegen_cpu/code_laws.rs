//! What generated code refers to: values, blocks, variables, stack slots and
//! texts that were introduced before.

use crate::codegen_cpu::inst::{Blk, Callee, Inst, StackSlot, Val, Var};
use crate::codegen_cpu::scheme_expr::Lowered;
use crate::codegen_cpu::state::{EnvView, Fail, St};
use vstd::prelude::*;

verus! {

/// Whether a callee exists and takes `n` arguments, where `fns` is the number
/// of functions of the program.
pub open spec fn callee_ok(callee: Callee, n: nat, fns: nat) -> bool {
    match callee {
        Callee::Runtime(s) => n == s.arity(),
        Callee::Function { index, ret } => index < fns,
    }
}

/// Whether an operand of an instruction at position `k` names something that
/// an earlier instruction introduced.
pub open spec fn val_at(code: Seq<Inst>, k: int, v: Val) -> bool {
    v.0 < k
}

pub open spec fn blk_at(code: Seq<Inst>, k: int, b: Blk) -> bool {
    b.0 < k && code[b.0 as int] is Block
}

pub open spec fn var_at(code: Seq<Inst>, k: int, v: Var) -> bool {
    v.0 < k && code[v.0 as int] is DeclareVar
}

pub open spec fn slot_at(code: Seq<Inst>, k: int, s: StackSlot) -> bool {
    s.0 < k && code[s.0 as int] is Slot
}

/// Whether everything that an instruction at position `k` refers to comes
/// before it; a call comes right behind its arguments.
pub open spec fn sound_inst(code: Seq<Inst>, texts: nat, fns: nat, k: int, i: Inst) -> bool {
    match i {
        Inst::SwitchTo { target } | Inst::Seal { target } | Inst::Jump { target } => blk_at(
            code,
            k,
            target,
        ),
        Inst::DefVar { var, val } => var_at(code, k, var) && val_at(code, k, val),
        Inst::UseVar { var } => var_at(code, k, var),
        Inst::Arith { op, lhs, rhs } => val_at(code, k, lhs) && val_at(code, k, rhs),
        Inst::IntCompare { icc, lhs, rhs } => val_at(code, k, lhs) && val_at(code, k, rhs),
        Inst::FloatCompare { fcc, lhs, rhs } => val_at(code, k, lhs) && val_at(code, k, rhs),
        Inst::IaddImm { val, imm } => val_at(code, k, val),
        Inst::Convert { conv, val } => val_at(code, k, val),
        Inst::Load { ty, base, offset } => val_at(code, k, base),
        Inst::Store { val, base, offset } => val_at(code, k, val) && val_at(code, k, base),
        Inst::StackStore { val, slot, offset } => val_at(code, k, val) && slot_at(code, k, slot),
        Inst::StackAddr { slot } => slot_at(code, k, slot),
        Inst::CstrAddr { entry } => entry < texts,
        Inst::Arg { val } => val_at(code, k, val),
        Inst::Call { callee, argc } => {
            &&& argc <= k
            &&& forall|j: int| k - argc <= j < k ==> (#[trigger] code[j]) is Arg
            &&& callee_ok(callee, argc as nat, fns)
        },
        Inst::Brif { cond, then_blk, else_blk } => {
            &&& val_at(code, k, cond)
            &&& blk_at(code, k, then_blk)
            &&& blk_at(code, k, else_blk)
        },
        Inst::Return { val } => val_at(code, k, val),
        _ => true,
    }
}

/// Whether every instruction refers only to what comes before it.
pub open spec fn sound_code(code: Seq<Inst>, texts: nat, fns: nat) -> bool {
    forall|k: int|
        0 <= k < code.len() ==> #[trigger] sound_inst(code, texts, fns, k, code[k])
}

/// Whether a table names functions of a program of `fns` functions.
pub open spec fn sound_env(env: EnvView, fns: nat) -> bool {
    forall|name: Seq<char>|
        #![trigger env.fns[name]]
        env.fns.contains_key(name) ==> env.fns[name].index < fns
}

impl St {
    /// Whether positions can be told apart by machine numbers.
    pub open spec fn fits(self) -> bool {
        self.code.len() <= usize::MAX
    }

    #[verifier::opaque]
    pub open spec fn has_val(self, v: Val) -> bool {
        self.fits() ==> val_at(self.code, self.code.len() as int, v)
    }

    #[verifier::opaque]
    pub open spec fn has_blk(self, b: Blk) -> bool {
        self.fits() ==> blk_at(self.code, self.code.len() as int, b)
    }

    #[verifier::opaque]
    pub open spec fn has_var(self, v: Var) -> bool {
        self.fits() ==> var_at(self.code, self.code.len() as int, v)
    }

    #[verifier::opaque]
    pub open spec fn has_slot(self, s: StackSlot) -> bool {
        self.fits() ==> slot_at(self.code, self.code.len() as int, s)
    }

    /// Whether `n` blocks were declared in a row from a position on.
    #[verifier::opaque]
    pub open spec fn has_row(self, first: nat, n: nat) -> bool {
        self.fits() ==> {
            &&& first + n <= self.code.len()
            &&& forall|j: int| first <= j < first + n ==> (#[trigger] self.code[j]) is Block
        }
    }

    /// Whether what was emitted so far refers only backwards.
    #[verifier::opaque]
    pub open spec fn ok(self, fns: nat) -> bool {
        &&& self.tys.len() == self.code.len()
        &&& self.strs.len() <= self.code.len()
        &&& self.fits() ==> sound_code(self.code, self.strs.len(), fns)
        &&& self.fits() ==> forall|name: Seq<char>|
            #![trigger self.vars[name]]
            self.vars.contains_key(name) ==> self.has_var(self.vars[name])
    }

    /// Whether a later state keeps what was emitted so far.
    #[verifier::opaque]
    pub open spec fn grows(self, after: St) -> bool {
        &&& self.code.is_prefix_of(after.code)
        &&& self.strs.len() <= after.strs.len()
    }

    /// Whether an instruction may come next. Texts and calls have their own
    /// steps.
    pub open spec fn may_follow(self, i: Inst) -> bool {
        match i {
            Inst::SwitchTo { target } | Inst::Seal { target } | Inst::Jump { target } => self.has_blk(
                target,
            ),
            Inst::DefVar { var, val } => self.has_var(var) && self.has_val(val),
            Inst::UseVar { var } => self.has_var(var),
            Inst::Arith { op, lhs, rhs } => self.has_val(lhs) && self.has_val(rhs),
            Inst::IntCompare { icc, lhs, rhs } => self.has_val(lhs) && self.has_val(rhs),
            Inst::FloatCompare { fcc, lhs, rhs } => self.has_val(lhs) && self.has_val(rhs),
            Inst::IaddImm { val, imm } => self.has_val(val),
            Inst::Convert { conv, val } => self.has_val(val),
            Inst::Load { ty, base, offset } => self.has_val(base),
            Inst::Store { val, base, offset } => self.has_val(val) && self.has_val(base),
            Inst::StackStore { val, slot, offset } => self.has_val(val) && self.has_slot(slot),
            Inst::StackAddr { slot } => self.has_slot(slot),
            Inst::CstrAddr { entry } => false,
            Inst::Arg { val } => self.has_val(val),
            Inst::Call { callee, argc } => false,
            Inst::Brif { cond, then_blk, else_blk } => {
                &&& self.has_val(cond)
                &&& self.has_blk(then_blk)
                &&& self.has_blk(else_blk)
            },
            Inst::Return { val } => self.has_val(val),
            _ => true,
        }
    }

    /// Whether a state is sound and keeps this one.
    pub open spec fn leads(self, after: St, fns: nat) -> bool {
        after.ok(fns) && self.grows(after)
    }

    /// As [`St::leads`], with a value.
    pub open spec fn gives(self, r: (St, Val), fns: nat) -> bool {
        self.leads(r.0, fns) && r.0.has_val(r.1)
    }

    /// As [`St::gives`], where lowering succeeds.
    pub open spec fn lowers(self, r: Lowered, fns: nat) -> bool {
        match r {
            Ok(p) => self.gives(p, fns),
            Err(_) => true,
        }
    }

    /// As [`St::leads`], where lowering succeeds.
    pub open spec fn runs(self, r: Result<St, Fail>, fns: nat) -> bool {
        match r {
            Ok(st) => self.leads(st, fns),
            Err(_) => true,
        }
    }
}

proof fn sound_inst_kept(code: Seq<Inst>, more: Seq<Inst>, texts: nat, more_texts: nat, fns: nat, k: int, i: Inst)
    requires
        sound_inst(code, texts, fns, k, i),
        0 <= k <= code.len(),
        code.is_prefix_of(more),
        texts <= more_texts,
    ensures
        sound_inst(more, more_texts, fns, k, i),
{
    assert forall|j: int| 0 <= j < code.len() implies more[j] == code[j] by {
        assert(more.take(code.len() as int)[j] == more[j]);
    }
}

pub broadcast proof fn emitted(st: St, i: Inst, fns: nat)
    requires
        st.ok(fns),
        st.may_follow(i),
    ensures
        #![trigger st.emit(i), st.ok(fns)]
        st.leads(st.emit(i), fns),
        st.emit(i).has_val(Val(st.next())),
        i is Block ==> st.emit(i).has_blk(Blk(st.next())),
        i is DeclareVar ==> st.emit(i).has_var(Var(st.next())),
        i is Slot ==> st.emit(i).has_slot(StackSlot(st.next())),
{
    reveal(St::ok);
    reveal(St::grows);
    reveal(St::has_val);
    reveal(St::has_blk);
    reveal(St::has_var);
    reveal(St::has_slot);
    let t = st.emit(i);
    assert(st.code.is_prefix_of(t.code));
    if t.fits() {
        let k = st.code.len() as int;
        assert(sound_inst(st.code, st.strs.len(), fns, k, i));
        assert forall|j: int| 0 <= j < t.code.len() implies #[trigger] sound_inst(
            t.code,
            t.strs.len(),
            fns,
            j,
            t.code[j],
        ) by {
            sound_inst_kept(st.code, t.code, st.strs.len(), t.strs.len(), fns, j, t.code[j]);
        }
        assert forall|name: Seq<char>| #![trigger t.vars[name]] t.vars.contains_key(
            name,
        ) implies t.has_var(t.vars[name]) by {
            assert(st.has_var(st.vars[name]));
        }
    }
}

pub broadcast proof fn grows_on(a: St, b: St, c: St)
    requires
        #[trigger] a.grows(b),
        #[trigger] b.grows(c),
    ensures
        a.grows(c),
{
    reveal(St::grows);
    assert forall|j: int| 0 <= j < a.code.len() implies c.code[j] == a.code[j] by {
        assert(b.code.take(a.code.len() as int)[j] == b.code[j]);
        assert(c.code.take(b.code.len() as int)[j] == c.code[j]);
    }
    assert(c.code.take(a.code.len() as int) =~= a.code);
}

pub proof fn grows_same(a: St)
    ensures
        a.grows(a),
{
    reveal(St::grows);
    assert(a.code.take(a.code.len() as int) =~= a.code);
}

pub broadcast proof fn val_kept(a: St, b: St, v: Val)
    requires
        #[trigger] a.grows(b),
        #[trigger] a.has_val(v),
    ensures
        b.has_val(v),
{
    reveal(St::grows);
    reveal(St::has_val);
}

pub broadcast proof fn blk_kept(a: St, b: St, v: Blk)
    requires
        #[trigger] a.grows(b),
        #[trigger] a.has_blk(v),
    ensures
        b.has_blk(v),
{
    reveal(St::grows);
    reveal(St::has_blk);
    if b.fits() {
        assert(b.code.take(a.code.len() as int)[v.0 as int] == b.code[v.0 as int]);
    }
}

pub broadcast proof fn var_kept(a: St, b: St, v: Var)
    requires
        #[trigger] a.grows(b),
        #[trigger] a.has_var(v),
    ensures
        b.has_var(v),
{
    reveal(St::grows);
    reveal(St::has_var);
    if b.fits() {
        assert(b.code.take(a.code.len() as int)[v.0 as int] == b.code[v.0 as int]);
    }
}

pub broadcast proof fn slot_kept(a: St, b: St, v: StackSlot)
    requires
        #[trigger] a.grows(b),
        #[trigger] a.has_slot(v),
    ensures
        b.has_slot(v),
{
    reveal(St::grows);
    reveal(St::has_slot);
    if b.fits() {
        assert(b.code.take(a.code.len() as int)[v.0 as int] == b.code[v.0 as int]);
    }
}

pub broadcast proof fn row_kept(a: St, b: St, first: nat, n: nat)
    requires
        #[trigger] a.grows(b),
        #[trigger] a.has_row(first, n),
    ensures
        b.has_row(first, n),
{
    reveal(St::grows);
    reveal(St::has_row);
    if b.fits() {
        assert forall|j: int| first <= j < first + n implies (#[trigger] b.code[j]) is Block by {
            assert(b.code.take(a.code.len() as int)[j] == b.code[j]);
        }
    }
}

/// A block of a row.
pub proof fn row_member(st: St, first: nat, n: nat, j: nat)
    requires
        st.has_row(first, n),
        j < n,
    ensures
        st.has_blk(Blk((first + j) as usize)),
{
    reveal(St::has_row);
    reveal(St::has_blk);
    if st.fits() {
        assert(st.code[(first + j) as int] is Block);
    }
}

/// The arguments from position `i` on are passed right behind each other.
proof fn passed(st: St, args: Seq<Val>, i: nat, fns: nat)
    requires
        st.ok(fns),
        i <= args.len(),
        forall|j: int| 0 <= j < args.len() ==> st.has_val(#[trigger] args[j]),
    ensures
        st.leads(st.pass_args(args, i), fns),
        st.pass_args(args, i).code.len() == st.code.len() + args.len() - i,
        forall|j: int|
            st.code.len() <= j < st.pass_args(args, i).code.len() ==> (#[trigger] st.pass_args(
                args,
                i,
            ).code[j]) is Arg,
    decreases args.len() - i,
{
    broadcast use {emitted, grows_on, val_kept};

    if i >= args.len() {
        grows_same(st);
    } else {
        let next = st.emit(Inst::Arg { val: args[i as int] });
        assert(st.leads(next, fns));
        assert forall|j: int| 0 <= j < args.len() implies next.has_val(#[trigger] args[j]) by {
            assert(st.has_val(args[j]));
        }
        passed(next, args, i + 1, fns);
        let done = next.pass_args(args, i + 1);
        assert(done.code[st.code.len() as int] is Arg) by {
            reveal(St::grows);
            assert(done.code.take(next.code.len() as int)[st.code.len() as int]
                == done.code[st.code.len() as int]);
        }
    }
}

pub broadcast proof fn called(st: St, callee: Callee, args: Seq<Val>, fns: nat)
    requires
        st.ok(fns),
        callee_ok(callee, args.len(), fns),
        forall|j: int| 0 <= j < args.len() ==> st.has_val(#[trigger] args[j]),
    ensures
        #![trigger st.call(callee, args), st.ok(fns)]
        st.gives(st.call(callee, args), fns),
{
    passed(st, args, 0, fns);
    let mid = st.pass_args(args, 0);
    let i = Inst::Call { callee, argc: args.len() as usize };
    let t = mid.emit(i);
    reveal(St::ok);
    reveal(St::grows);
    reveal(St::has_val);
    reveal(St::has_var);
    assert(mid.code.is_prefix_of(t.code));
    assert(mid.grows(t));
    grows_on(st, mid, t);
    if t.fits() {
        let k = mid.code.len() as int;
        assert(sound_inst(mid.code, mid.strs.len(), fns, k, i));
        assert forall|j: int| 0 <= j < t.code.len() implies #[trigger] sound_inst(
            t.code,
            t.strs.len(),
            fns,
            j,
            t.code[j],
        ) by {
            sound_inst_kept(mid.code, t.code, mid.strs.len(), t.strs.len(), fns, j, t.code[j]);
        }
        assert forall|name: Seq<char>| #![trigger t.vars[name]] t.vars.contains_key(
            name,
        ) implies t.has_var(t.vars[name]) by {
            assert(mid.has_var(mid.vars[name]));
        }
    }
}

pub broadcast proof fn texted(st: St, text: Seq<char>, fns: nat)
    requires
        st.ok(fns),
    ensures
        #![trigger st.static_cstr(text), st.ok(fns)]
        st.gives(st.static_cstr(text), fns),
{
    reveal(St::ok);
    reveal(St::grows);
    reveal(St::has_val);
    reveal(St::has_var);
    let t = st.static_cstr(text).0;
    assert(st.code.is_prefix_of(t.code));
    if t.fits() {
        assert forall|j: int| 0 <= j < t.code.len() implies #[trigger] sound_inst(
            t.code,
            t.strs.len(),
            fns,
            j,
            t.code[j],
        ) by {
            if j < st.code.len() {
                sound_inst_kept(st.code, t.code, st.strs.len(), t.strs.len(), fns, j, t.code[j]);
            }
        }
        assert forall|name: Seq<char>| #![trigger t.vars[name]] t.vars.contains_key(
            name,
        ) implies t.has_var(t.vars[name]) by {
            assert(st.has_var(st.vars[name]));
        }
    }
}

pub broadcast proof fn bound(st: St, name: Seq<char>, var: Var, fns: nat)
    requires
        st.ok(fns),
        st.has_var(var),
    ensures
        #![trigger st.bind(name, var), st.ok(fns)]
        st.leads(st.bind(name, var), fns),
{
    reveal(St::ok);
    reveal(St::grows);
    reveal(St::has_var);
    let t = st.bind(name, var);
    assert(t.code.take(st.code.len() as int) =~= st.code);
    assert forall|x: Seq<char>| #![trigger t.vars[x]] t.vars.contains_key(
        x,
    ) implies t.has_var(t.vars[x]) by {
        if x != name {
            assert(st.fits() ==> st.has_var(st.vars[x]));
        }
    }
}

pub broadcast proof fn named(st: St, name: Seq<char>, fns: nat)
    requires
        st.ok(fns),
        st.vars.contains_key(name),
    ensures
        #![trigger st.vars[name], st.ok(fns)]
        st.has_var(st.vars[name]),
{
    reveal(St::ok);
    reveal(St::has_var);
}

pub broadcast group group_code {
    emitted,
    grows_on,
    val_kept,
    blk_kept,
    var_kept,
    slot_kept,
    row_kept,
    called,
    texted,
    bound,
    named,
}

} // verus!
