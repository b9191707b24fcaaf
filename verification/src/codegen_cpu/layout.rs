//! How the code of statements on integers, truth values and handles is laid
//! out: in blocks that each begin once, with a variable for each name.

use crate::codegen_cpu::box_builds;
use crate::codegen_cpu::box_stmts;
use crate::codegen_cpu::box_writes;
use crate::codegen_cpu::flow;
use crate::codegen_cpu::inst::{Arith, Blk, ClTy, Inst, IntCc, Val, Var};
use crate::codegen_cpu::match_runs;
use crate::codegen_cpu::meaning;
use crate::codegen_cpu::meaning::Sort;
use crate::codegen_cpu::release_layout;
use crate::codegen_cpu::scheme_stmt::LoopExits;
use crate::codegen_cpu::state::{EnvView, Fail, St};
use crate::codegen_cpu::symbols::RtSym;
use crate::typed::{TypedExpr, TypedStmt};
use vstd::prelude::*;

verus! {

/// Whether names keep their variables.
pub open spec fn same_vars(
    a: Map<Seq<char>, Var>,
    b: Map<Seq<char>, Var>,
    sorts: Map<Seq<char>, Sort>,
) -> bool {
    forall|n: Seq<char>| #[trigger]
        sorts.contains_key(n) ==> a.contains_key(n) && b.contains_key(n) && a[n] == b[n]
}

/// Whether names keep what they stand for.
pub open spec fn same_sorts(a: Map<Seq<char>, Sort>, b: Map<Seq<char>, Sort>) -> bool {
    forall|n: Seq<char>| #[trigger] a.contains_key(n) ==> b.contains_key(n) && b[n] == a[n]
}

impl St {
    /// Whether a stretch of code keeps what lies before it, and its names and
    /// blocks are its own.
    pub open spec fn leads_to(self, t: St, sorts: Map<Seq<char>, Sort>) -> bool {
        &&& self.grows_to(t)
        &&& t.fits() ==> self.owns_blocks(t)
        &&& same_vars(self.vars, t.vars, sorts)
    }

    /// Whether a block was declared since `from` and has not begun.
    pub open spec fn pending(self, from: St, b: Blk) -> bool {
        &&& from.code.len() <= b.0 < self.code.len()
        &&& forall|k: int|
            from.code.len() <= k < self.code.len() ==> #[trigger] self.code[k] != (
            Inst::SwitchTo { target: b })
    }

    /// Whether the code since `from` owns its blocks, of which some have not
    /// begun.
    pub open spec fn awaits(self, from: St, blocks: Seq<Blk>) -> bool {
        &&& from.grows_to(self)
        &&& self.fits() ==> {
            &&& from.owns_blocks(self)
            &&& blocks.no_duplicates()
            &&& forall|j: int| 0 <= j < blocks.len() ==> self.pending(from, #[trigger] blocks[j])
        }
    }
}

pub proof fn leads_on(a: St, b: St, c: St, sorts: Map<Seq<char>, Sort>, more: Map<Seq<char>, Sort>)
    requires
        a.leads_to(b, sorts),
        b.leads_to(c, more),
        same_sorts(sorts, more),
    ensures
        a.leads_to(c, sorts),
{
    meaning::grows_on(a, b, c);
    if c.fits() {
        meaning::owns_on(a, b, c);
    }
    assert forall|n: Seq<char>| #[trigger] sorts.contains_key(n) implies a.vars.contains_key(n)
        && c.vars.contains_key(n) && a.vars[n] == c.vars[n] by {
        assert(more.contains_key(n));
    }
}

/// More code leaves earlier blocks pending.
pub proof fn awaits_code(from: St, a: St, t: St, blocks: Seq<Blk>)
    requires
        a.awaits(from, blocks),
        a.grows_to(t),
        t.fits() ==> a.owns_blocks(t),
    ensures
        t.awaits(from, blocks),
{
    meaning::grows_on(from, a, t);
    if t.fits() {
        meaning::owns_on(from, a, t);
        assert forall|j: int| 0 <= j < blocks.len() implies t.pending(from, #[trigger] blocks[j]) by {
            let b = blocks[j];
            assert(a.pending(from, b));
            assert forall|k: int| from.code.len() <= k < t.code.len() implies #[trigger] t.code[k]
                != (Inst::SwitchTo { target: b }) by {
                if k < a.code.len() {
                    assert(t.code[k] == a.code[k]);
                }
            }
        }
    }
}

/// An instruction other than the beginning of a block leaves blocks pending.
pub proof fn awaits_emit(from: St, a: St, blocks: Seq<Blk>, i: Inst)
    requires
        a.awaits(from, blocks),
        !(i is SwitchTo),
    ensures
        a.emit(i).awaits(from, blocks),
{
    awaits_code(from, a, a.emit(i), blocks);
}

/// A new block is pending.
pub proof fn awaits_blk(from: St, a: St, blocks: Seq<Blk>)
    requires
        a.awaits(from, blocks),
    ensures
        a.blk().0.awaits(from, blocks.push(a.blk().1)),
{
    let (t, b) = a.blk();
    awaits_emit(from, a, blocks, Inst::Block);
    if t.fits() {
        assert forall|j: int| 0 <= j < blocks.push(b).len() implies t.pending(
            from,
            #[trigger] blocks.push(b)[j],
        ) by {
            if j < blocks.len() {
                assert(t.pending(from, blocks[j]));
            } else {
                assert forall|k: int| from.code.len() <= k < t.code.len() implies #[trigger] t.code[k]
                    != (Inst::SwitchTo { target: b }) by {}
            }
        }
        assert forall|j: int| 0 <= j < blocks.len() implies #[trigger] blocks[j] != b by {
            assert(a.pending(from, blocks[j]));
        }
    }
}

/// A pending block can begin.
pub proof fn awaits_switch(from: St, a: St, blocks: Seq<Blk>, j: int)
    requires
        a.awaits(from, blocks),
        0 <= j < blocks.len(),
    ensures
        a.switch_to(blocks[j]).awaits(from, blocks.remove(j)),
{
    let b = blocks[j];
    let t = a.switch_to(b);
    let rest = blocks.remove(j);
    meaning::grows_on(from, a, t);
    if t.fits() {
        assert(a.pending(from, b));
        assert forall|k: int|
            from.code.len() <= k < t.code.len() && #[trigger] t.code[k] is SwitchTo implies from.code.len()
            <= t.code[k]->SwitchTo_target.0 < k by {
            if k < a.code.len() {
                assert(t.code[k] == a.code[k]);
            }
        }
        assert forall|i: int, k: int|
            from.code.len() <= i < k < t.code.len() && #[trigger] t.code[i] is SwitchTo
                && #[trigger] t.code[k] is SwitchTo implies t.code[i] != t.code[k] by {
            assert(t.code[i] == a.code[i]);
            if k < a.code.len() {
                assert(t.code[k] == a.code[k]);
            }
        }
        assert forall|i: int| 0 <= i < rest.len() implies t.pending(from, #[trigger] rest[i]) by {
            let c = rest[i];
            let at = if i < j {
                i
            } else {
                i + 1
            };
            assert(blocks[at] == c);
            assert(a.pending(from, c));
            assert forall|k: int| from.code.len() <= k < t.code.len() implies #[trigger] t.code[k]
                != (Inst::SwitchTo { target: c }) by {
                if k < a.code.len() {
                    assert(t.code[k] == a.code[k]);
                }
            }
        }
        assert forall|i: int, k: int| 0 <= i < rest.len() && 0 <= k < rest.len() && i != k implies rest[i]
            != rest[k] by {
            assert(rest[i] == blocks[if i < j { i } else { i + 1 }]);
            assert(rest[k] == blocks[if k < j { k } else { k + 1 }]);
        }
    }
}

/// The code of an expression can be generated.
pub proof fn values_are_lowered(st: St, env: EnvView, e: TypedExpr, sorts: Map<Seq<char>, Sort>)
    requires
        st.binds(sorts),
        flow::core_expr(e, sorts),
    ensures
        match st.expr(env, e) {
            Err(_) => false,
            Ok((t, v)) => {
                &&& st.grows_to(t)
                &&& st.owns_blocks(t)
                &&& t.vars == st.vars
                &&& st.leads_to(t, sorts)
                &&& t.binds(sorts)
                &&& t.fits() ==> v.0 < t.code.len() && t.val_ty(v) == Some(flow::sort_of(e).machine())
            },
        },
        e.ty.machine() == Some(flow::sort_of(e).machine()),
{
    if meaning::integer_expr(e, sorts) {
        meaning::integers_are_lowered(st, env, e, sorts);
    } else {
        meaning::truths_are_lowered(st, env, e, sorts);
    }
    let t = st.expr(env, e)->Ok_0.0;
    meaning::binds_on(st, t, sorts);
}

/// A new name gets a variable of its own.
pub proof fn binds_new(st: St, name: Seq<char>, var: Var, t: St, sorts: Map<Seq<char>, Sort>, sort: Sort)
    requires
        st.binds(sorts),
        !sorts.contains_key(name),
        st.grows_to(t),
        t.vars == st.vars.insert(name, var),
        t.fits() ==> st.code.len() <= var.0 < t.code.len() && t.tys[var.0 as int] == Some(
            sort.machine(),
        ),
    ensures
        t.binds(sorts),
        t.binds(sorts.insert(name, sort)),
        same_vars(st.vars, t.vars, sorts),
{
    meaning::binds_on(st, t, sorts);
    let more = sorts.insert(name, sort);
    if t.fits() {
        assert forall|n: Seq<char>, k: Seq<char>| #[trigger]
            more.contains_key(n) && #[trigger] more.contains_key(k) && n != k implies t.vars[n]
            != t.vars[k] by {
            assert(n != name ==> sorts.contains_key(n));
            assert(k != name ==> sorts.contains_key(k));
        }
        assert forall|n: Seq<char>| #[trigger] more.contains_key(n) implies t.val_ty(
            Val(t.vars[n].0),
        ) == Some(more[n].machine()) by {
            assert(n != name ==> sorts.contains_key(n));
        }
    }
}

/// A body, with a jump behind it where it does not leave by itself.
pub open spec fn closed_body(sb: St, left: bool, target: Blk) -> St {
    if left {
        sb
    } else {
        sb.jump(target)
    }
}

/// How a loop with a condition is laid out: three blocks, the condition at
/// the head of each round, the body, and what follows.
pub proof fn while_shape(
    st: St,
    env: EnvView,
    exits: LoopExits,
    s: TypedStmt,
    sorts: Map<Seq<char>, Sort>,
    looped: bool,
)
    requires
        st.binds(sorts),
        flow::core_stmt(s, sorts, looped),
        s is While,
    ensures
        ({
            let condition = s->While_condition;
            let body = s->While_body@;
            let (a0, header) = st.blk();
            let (a1, body_blk) = a0.blk();
            let (a2, exit) = a1.blk();
            let s2 = a2.jump(header).switch_to(header);
            let (s3, cond) = s2.expr(env, condition)->Ok_0;
            let s4 = s3.brif(cond, body_blk, exit).switch_to(body_blk);
            let (sb, left) = s4.body(env, Some((header, exit)), body, 0)->Ok_0;
            let s5 = closed_body(sb, left, header);
            let t = s5.switch_to(exit);
            &&& s2.expr(env, condition) is Ok
            &&& s4.body(env, Some((header, exit)), body, 0) is Ok
            &&& st.stmt(env, exits, s) == Ok::<(St, bool), Fail>((t, false))
            &&& st.leads_to(t, sorts)
            &&& s2.binds(sorts)
            &&& s2.vars == st.vars
            &&& s4.binds(sorts)
            &&& s4.vars == st.vars
            &&& s4.leads_to(sb, sorts)
            &&& s2.grows_to(s3)
            &&& s2.grows_to(t)
            &&& s3.grows_to(t)
            &&& s4.grows_to(t)
            &&& sb.grows_to(s5)
            &&& s5.grows_to(t)
        }),
    decreases s, 0nat, 0nat,
{
    let condition = s->While_condition;
    let body = s->While_body@;
    let (a0, header) = st.blk();
    let (a1, body_blk) = a0.blk();
    let (a2, exit) = a1.blk();
    let a3 = a2.jump(header);
    let s2 = a3.switch_to(header);
    assert(st.awaits(st, Seq::<Blk>::empty()));
    awaits_blk(st, st, Seq::empty());
    let b1 = seq![header];
    assert(Seq::<Blk>::empty().push(header) =~= b1);
    awaits_blk(st, a0, b1);
    let b2 = seq![header, body_blk];
    assert(b1.push(body_blk) =~= b2);
    awaits_blk(st, a1, b2);
    let b3 = seq![header, body_blk, exit];
    assert(b2.push(exit) =~= b3);
    awaits_emit(st, a2, b3, Inst::Jump { target: header });
    awaits_switch(st, a3, b3, 0);
    let b4 = seq![body_blk, exit];
    assert(b3.remove(0) =~= b4);
    meaning::binds_on(st, s2, sorts);
    values_are_lowered(s2, env, condition, sorts);
    let (s3, cond) = s2.expr(env, condition)->Ok_0;
    awaits_code(st, s2, s3, b4);
    let a4 = s3.brif(cond, body_blk, exit);
    let s4 = a4.switch_to(body_blk);
    awaits_emit(st, s3, b4, Inst::Brif { cond, then_blk: body_blk, else_blk: exit });
    awaits_switch(st, a4, b4, 0);
    let b5 = seq![exit];
    assert(b4.remove(0) =~= b5);
    meaning::binds_on(s3, s4, sorts);
    let ex: LoopExits = Some((header, exit));
    reveal(ready);
    reveal(extended);
    body_lowered(s4, env, ex, body, 0, sorts, true);
    let (sb, left) = s4.body(env, ex, body, 0)->Ok_0;
    awaits_code(st, s4, sb, b5);
    let s5 = closed_body(sb, left, header);
    if !left {
        awaits_emit(st, sb, b5, Inst::Jump { target: header });
    }
    assert(sb.grows_to(s5));
    awaits_switch(st, s5, b5, 0);
    let t = s5.switch_to(exit);
    assert(s4.body_into(env, ex, body, header) == Ok::<(St, bool), Fail>((s5, left)));
    assert(st.while_stmt(env, s) == Ok::<(St, bool), Fail>((t, false)));
    assert(s5.grows_to(t));
    meaning::grows_on(s4, sb, s5);
    meaning::grows_on(s4, s5, t);
    assert(s3.grows_to(s4));
    meaning::grows_on(s3, s4, t);
    meaning::grows_on(s2, s3, t);
    assert forall|n: Seq<char>| #[trigger] sorts.contains_key(n) implies st.vars.contains_key(n)
        && t.vars.contains_key(n) && st.vars[n] == t.vars[n] by {}
}

/// How a choice without an alternative is laid out: the condition, the body
/// and what follows.
pub proof fn if_shape(
    st: St,
    env: EnvView,
    exits: LoopExits,
    s: TypedStmt,
    sorts: Map<Seq<char>, Sort>,
    looped: bool,
)
    requires
        st.binds(sorts),
        flow::core_stmt(s, sorts, looped),
        looped ==> exits is Some,
        s is If,
        s->else_body is None,
    ensures
        ({
            let condition = s->If_condition;
            let body = s->then_body@;
            let (s1, cond) = st.expr(env, condition)->Ok_0;
            let (a1, then_blk) = s1.blk();
            let (a2, merge) = a1.blk();
            let s2 = a2.brif(cond, then_blk, merge).switch_to(then_blk);
            let (sb, left) = s2.body(env, exits, body, 0)->Ok_0;
            let s3 = closed_body(sb, left, merge);
            let t = s3.switch_to(merge);
            &&& st.expr(env, condition) is Ok
            &&& s2.body(env, exits, body, 0) is Ok
            &&& st.stmt(env, exits, s) == Ok::<(St, bool), Fail>((t, false))
            &&& st.leads_to(t, sorts)
            &&& s2.binds(sorts)
            &&& s2.vars == st.vars
            &&& s2.leads_to(sb, sorts)
            &&& s1.grows_to(a2)
            &&& a2.grows_to(t)
            &&& s1.grows_to(t)
            &&& s2.grows_to(t)
            &&& sb.grows_to(s3)
            &&& s3.grows_to(t)
        }),
    decreases s, 0nat, 0nat,
{
    let condition = s->If_condition;
    let body = s->then_body@;
    values_are_lowered(st, env, condition, sorts);
    let (s1, cond) = st.expr(env, condition)->Ok_0;
    assert(s1.awaits(st, Seq::<Blk>::empty()));
    let (a1, then_blk) = s1.blk();
    let (a2, merge) = a1.blk();
    awaits_blk(st, s1, Seq::empty());
    let b1 = seq![then_blk];
    assert(Seq::<Blk>::empty().push(then_blk) =~= b1);
    awaits_blk(st, a1, b1);
    let b2 = seq![then_blk, merge];
    assert(b1.push(merge) =~= b2);
    let a3 = a2.brif(cond, then_blk, merge);
    awaits_emit(st, a2, b2, Inst::Brif { cond, then_blk, else_blk: merge });
    awaits_switch(st, a3, b2, 0);
    let b3 = seq![merge];
    assert(b2.remove(0) =~= b3);
    let s2 = a3.switch_to(then_blk);
    meaning::binds_on(s1, s2, sorts);
    reveal(ready);
    reveal(extended);
    body_lowered(s2, env, exits, body, 0, sorts, looped);
    let (sb, left) = s2.body(env, exits, body, 0)->Ok_0;
    awaits_code(st, s2, sb, b3);
    let s3 = closed_body(sb, left, merge);
    if !left {
        awaits_emit(st, sb, b3, Inst::Jump { target: merge });
    }
    assert(sb.grows_to(s3));
    awaits_switch(st, s3, b3, 0);
    let t = s3.switch_to(merge);
    assert(s2.body_into(env, exits, body, merge) == Ok::<(St, bool), Fail>((s3, left)));
    assert(st.if_stmt(env, exits, s) == Ok::<(St, bool), Fail>((t, false)));
    assert(s3.grows_to(t));
    assert(s1.grows_to(a2));
    assert(a2.grows_to(s2));
    meaning::grows_on(s2, sb, s3);
    meaning::grows_on(s2, s3, t);
    meaning::grows_on(a2, s2, t);
    meaning::grows_on(s1, a2, t);
    assert forall|n: Seq<char>| #[trigger] sorts.contains_key(n) implies st.vars.contains_key(n)
        && t.vars.contains_key(n) && st.vars[n] == t.vars[n] by {}
}

/// The condition of a choice with an alternative, and the blocks of both sides.
proof fn if_else_head(st: St, env: EnvView, condition: TypedExpr, sorts: Map<Seq<char>, Sort>)
    requires
        st.binds(sorts),
        meaning::truth_expr(condition, sorts),
    ensures
        ({
            let (s1, cond) = st.expr(env, condition)->Ok_0;
            let (a1, then_blk) = s1.blk();
            let (a2, merge) = a1.blk();
            let (a3, else_blk) = a2.blk();
            let s2 = a3.brif(cond, then_blk, else_blk).switch_to(then_blk);
            &&& st.expr(env, condition) is Ok
            &&& s2.awaits(st, seq![merge, else_blk])
            &&& s2.binds(sorts)
            &&& s2.vars == st.vars
            &&& s1.grows_to(a3)
            &&& a3.grows_to(s2)
        }),
{
    values_are_lowered(st, env, condition, sorts);
    let (s1, cond) = st.expr(env, condition)->Ok_0;
    assert(s1.awaits(st, Seq::<Blk>::empty()));
    let (a1, then_blk) = s1.blk();
    let (a2, merge) = a1.blk();
    let (a3, else_blk) = a2.blk();
    awaits_blk(st, s1, Seq::empty());
    let b1 = seq![then_blk];
    assert(Seq::<Blk>::empty().push(then_blk) =~= b1);
    awaits_blk(st, a1, b1);
    let b2 = seq![then_blk, merge];
    assert(b1.push(merge) =~= b2);
    awaits_blk(st, a2, b2);
    let b3 = seq![then_blk, merge, else_blk];
    assert(b2.push(else_blk) =~= b3);
    let a4 = a3.brif(cond, then_blk, else_blk);
    awaits_emit(st, a3, b3, Inst::Brif { cond, then_blk, else_blk });
    awaits_switch(st, a4, b3, 0);
    assert(b3.remove(0) =~= seq![merge, else_blk]);
    let s2 = a4.switch_to(then_blk);
    meaning::binds_on(s1, s2, sorts);
    assert(s1.grows_to(a3));
    assert(a3.grows_to(s2));
}

/// The code of a choice with an alternative, piece by piece.
proof fn if_else_unfolds(st: St, env: EnvView, exits: LoopExits, s: TypedStmt)
    requires
        s is If,
        s->else_body is Some,
    ensures
        ({
            let body = s->then_body@;
            let other = (s->else_body->0)@;
            let (s1, cond) = st.expr(env, s->If_condition)->Ok_0;
            let (a1, then_blk) = s1.blk();
            let (a2, merge) = a1.blk();
            let (a3, else_blk) = a2.blk();
            let s2 = a3.brif(cond, then_blk, else_blk).switch_to(then_blk);
            let (sb, left) = s2.body(env, exits, body, 0)->Ok_0;
            let s3 = closed_body(sb, left, merge);
            let s4 = s3.switch_to(else_blk);
            let (sc, right) = s4.body(env, exits, other, 0)->Ok_0;
            let s5 = closed_body(sc, right, merge);
            let t = if left && right {
                s5
            } else {
                s5.switch_to(merge)
            };
            st.expr(env, s->If_condition) is Ok && s2.body(env, exits, body, 0) is Ok && s4.body(
                env,
                exits,
                other,
                0,
            ) is Ok ==> st.stmt(env, exits, s) == Ok::<(St, bool), Fail>((t, left && right))
        }),
{
    let body = s->then_body@;
    let other = (s->else_body->0)@;
    let (s1, cond) = st.expr(env, s->If_condition)->Ok_0;
    let (a1, then_blk) = s1.blk();
    let (a2, merge) = a1.blk();
    let (a3, else_blk) = a2.blk();
    let s2 = a3.brif(cond, then_blk, else_blk).switch_to(then_blk);
    let (sb, left) = s2.body(env, exits, body, 0)->Ok_0;
    let s3 = closed_body(sb, left, merge);
    let s4 = s3.switch_to(else_blk);
    let (sc, right) = s4.body(env, exits, other, 0)->Ok_0;
    let s5 = closed_body(sc, right, merge);
    if st.expr(env, s->If_condition) is Ok && s2.body(env, exits, body, 0) is Ok && s4.body(
        env,
        exits,
        other,
        0,
    ) is Ok {
        assert(s2.body_into(env, exits, body, merge) == Ok::<(St, bool), Fail>((s3, left)));
        assert(s4.body_into(env, exits, other, merge) == Ok::<(St, bool), Fail>((s5, right)));
        assert(st.stmt(env, exits, s) == st.if_stmt(env, exits, s));
    }
}

/// How a choice with an alternative is laid out: the condition, the two bodies
/// and, unless both leave by themselves, what follows.
pub proof fn if_else_shape(
    st: St,
    env: EnvView,
    exits: LoopExits,
    s: TypedStmt,
    sorts: Map<Seq<char>, Sort>,
    looped: bool,
)
    requires
        st.binds(sorts),
        flow::core_stmt(s, sorts, looped),
        looped ==> exits is Some,
        s is If,
        s->else_body is Some,
    ensures
        ({
            let condition = s->If_condition;
            let body = s->then_body@;
            let other = (s->else_body->0)@;
            let (s1, cond) = st.expr(env, condition)->Ok_0;
            let (a1, then_blk) = s1.blk();
            let (a2, merge) = a1.blk();
            let (a3, else_blk) = a2.blk();
            let s2 = a3.brif(cond, then_blk, else_blk).switch_to(then_blk);
            let (sb, left) = s2.body(env, exits, body, 0)->Ok_0;
            let s3 = closed_body(sb, left, merge);
            let s4 = s3.switch_to(else_blk);
            let (sc, right) = s4.body(env, exits, other, 0)->Ok_0;
            let s5 = closed_body(sc, right, merge);
            let t = if left && right {
                s5
            } else {
                s5.switch_to(merge)
            };
            &&& st.expr(env, condition) is Ok
            &&& s2.body(env, exits, body, 0) is Ok
            &&& s4.body(env, exits, other, 0) is Ok
            &&& st.stmt(env, exits, s) == Ok::<(St, bool), Fail>((t, left && right))
            &&& st.leads_to(t, sorts)
            &&& s2.binds(sorts)
            &&& s2.vars == st.vars
            &&& s2.leads_to(sb, sorts)
            &&& s4.binds(sorts)
            &&& s4.leads_to(sc, sorts)
            &&& same_vars(st.vars, s4.vars, sorts)
            &&& s1.grows_to(a3)
            &&& a3.grows_to(t)
            &&& s1.grows_to(t)
            &&& s2.grows_to(t)
            &&& sb.grows_to(s3)
            &&& s3.grows_to(t)
            &&& s4.grows_to(t)
            &&& sc.grows_to(s5)
            &&& s5.grows_to(t)
        }),
    decreases s, 0nat, 0nat,
{
    let condition = s->If_condition;
    let body = s->then_body@;
    let other = (s->else_body->0)@;
    if_else_head(st, env, condition, sorts);
    let (s1, cond) = st.expr(env, condition)->Ok_0;
    let (a1, then_blk) = s1.blk();
    let (a2, merge) = a1.blk();
    let (a3, else_blk) = a2.blk();
    let b4 = seq![merge, else_blk];
    let s2 = a3.brif(cond, then_blk, else_blk).switch_to(then_blk);
    reveal(ready);
    reveal(extended);
    body_lowered(s2, env, exits, body, 0, sorts, looped);
    let (sb, left) = s2.body(env, exits, body, 0)->Ok_0;
    awaits_code(st, s2, sb, b4);
    let s3 = closed_body(sb, left, merge);
    if !left {
        awaits_emit(st, sb, b4, Inst::Jump { target: merge });
    }
    assert(sb.grows_to(s3));
    awaits_switch(st, s3, b4, 1);
    let b5 = seq![merge];
    assert(b4.remove(1) =~= b5);
    let s4 = s3.switch_to(else_blk);
    meaning::binds_on(sb, s4, sorts);
    body_lowered(s4, env, exits, other, 0, sorts, looped);
    let (sc, right) = s4.body(env, exits, other, 0)->Ok_0;
    awaits_code(st, s4, sc, b5);
    let s5 = closed_body(sc, right, merge);
    if !right {
        awaits_emit(st, sc, b5, Inst::Jump { target: merge });
    }
    assert(sc.grows_to(s5));
    awaits_switch(st, s5, b5, 0);
    let t = if left && right {
        s5
    } else {
        s5.switch_to(merge)
    };
    if_else_unfolds(st, env, exits, s);
    assert(s5.grows_to(t));
    assert(s3.grows_to(s4));
    meaning::grows_on(s4, sc, s5);
    meaning::grows_on(s4, s5, t);
    meaning::grows_on(s3, s4, t);
    meaning::grows_on(s2, sb, s3);
    meaning::grows_on(s2, s3, t);
    meaning::grows_on(a3, s2, t);
    meaning::grows_on(s1, a3, t);
    assert forall|n: Seq<char>| #[trigger] sorts.contains_key(n) implies st.vars.contains_key(n)
        && t.vars.contains_key(n) && st.vars[n] == t.vars[n] && s4.vars[n] == st.vars[n] by {}
}

/// How a counting loop is laid out: the counter's start, four blocks, the test
/// at the head of each round, the body, the step and what follows.
pub proof fn for_shape(
    st: St,
    env: EnvView,
    exits: LoopExits,
    s: TypedStmt,
    sorts: Map<Seq<char>, Sort>,
    looped: bool,
)
    requires
        st.binds(sorts),
        flow::core_stmt(s, sorts, looped),
        s is For,
    ensures
        ({
            let var = s->For_var@;
            let body = s->For_body@;
            let more = sorts.insert(var, Sort::Integer(ClTy::I64));
            let (d, counter) = st.declare(ClTy::I64);
            let (s1, from) = d.expr(env, s->start)->Ok_0;
            let a0 = s1.def_var(counter, from).bind(var, counter);
            let (a1, header) = a0.blk();
            let (a2, body_blk) = a1.blk();
            let (a3, incr) = a2.blk();
            let (a4, exit) = a3.blk();
            let s2 = a4.jump(header).switch_to(header);
            let (s3, cur) = s2.read_var(counter);
            let (s4, limit) = s3.expr(env, s->end)->Ok_0;
            let s5 = s4.test_index(cur, limit, body_blk, exit).switch_to(body_blk);
            let (sb, left) = s5.body(env, Some((incr, exit)), body, 0)->Ok_0;
            let s6 = closed_body(sb, left, incr);
            let s7 = s6.switch_to(incr);
            let s8 = s7.advance(counter, header);
            let t = s8.switch_to(exit);
            &&& d.binds(sorts)
            &&& d.expr(env, s->start) is Ok
            &&& s3.expr(env, s->end) is Ok
            &&& s5.body(env, Some((incr, exit)), body, 0) is Ok
            &&& st.stmt(env, exits, s) == Ok::<(St, bool), Fail>((t, false))
            &&& st.leads_to(t, sorts)
            &&& st.grows_to(d)
            &&& d.grows_to(s1)
            &&& s1.grows_to(a0)
            &&& a0.grows_to(s2)
            &&& a0.binds(more)
            &&& s3.binds(sorts)
            &&& s3.vars == a0.vars
            &&& s5.binds(more)
            &&& s5.vars == a0.vars
            &&& s5.leads_to(sb, more)
            &&& same_vars(st.vars, a0.vars, sorts)
            &&& t.fits() ==> counter.0 == st.code.len()
            &&& a0.grows_to(t)
            &&& s2.grows_to(t)
            &&& s3.grows_to(t)
            &&& s4.grows_to(t)
            &&& s5.grows_to(t)
            &&& sb.grows_to(s6)
            &&& s6.grows_to(t)
            &&& s7.grows_to(t)
            &&& s8.grows_to(t)
        }),
    decreases s, 0nat, 1nat,
{
    let var = s->For_var@;
    let body = s->For_body@;
    let more = sorts.insert(var, Sort::Integer(ClTy::I64));
    let (d, counter) = st.declare(ClTy::I64);
    let (s1, from) = d.expr(env, s->start)->Ok_0;
    let a0 = s1.def_var(counter, from).bind(var, counter);
    let (a1, header) = a0.blk();
    let (a2, body_blk) = a1.blk();
    let (a3, incr) = a2.blk();
    let (a4, exit) = a3.blk();
    let s2 = a4.jump(header).switch_to(header);
    let (s3, cur) = s2.read_var(counter);
    let (s4, limit) = s3.expr(env, s->end)->Ok_0;
    let s5 = s4.test_index(cur, limit, body_blk, exit).switch_to(body_blk);
    for_shape_head(st, env, s, sorts, looped);
    for_shape_tail(st, env, s, sorts, more, a0, s2, s3, s4, s5, counter, header, incr, exit);
    for_unfolds(st, env, exits, s);
}

/// The code of a counting loop, where all of it can be generated.
proof fn for_unfolds(st: St, env: EnvView, exits: LoopExits, s: TypedStmt)
    requires
        s is For,
    ensures
        ({
            let var = s->For_var@;
            let body = s->For_body@;
            let (d, counter) = st.declare(ClTy::I64);
            let (s1, from) = d.expr(env, s->start)->Ok_0;
            let a0 = s1.def_var(counter, from).bind(var, counter);
            let (a1, header) = a0.blk();
            let (a2, body_blk) = a1.blk();
            let (a3, incr) = a2.blk();
            let (a4, exit) = a3.blk();
            let s2 = a4.jump(header).switch_to(header);
            let (s3, cur) = s2.read_var(counter);
            let (s4, limit) = s3.expr(env, s->end)->Ok_0;
            let s5 = s4.test_index(cur, limit, body_blk, exit).switch_to(body_blk);
            let inner = s5.body_into(env, Some((incr, exit)), body, incr);
            let t = inner->Ok_0.0.switch_to(incr).advance(counter, header).switch_to(exit);
            d.expr(env, s->start) is Ok && s3.expr(env, s->end) is Ok && inner is Ok ==> st.stmt(
                env,
                exits,
                s,
            ) == Ok::<(St, bool), Fail>((t, false))
        }),
{
    assert(st.stmt(env, exits, s) == st.for_stmt(env, s));
}

/// The start of a counting loop, its blocks and its test.
proof fn for_shape_head(
    st: St,
    env: EnvView,
    s: TypedStmt,
    sorts: Map<Seq<char>, Sort>,
    looped: bool,
)
    requires
        st.binds(sorts),
        flow::core_stmt(s, sorts, looped),
        s is For,
    ensures
        ({
            let var = s->For_var@;
            let more = sorts.insert(var, Sort::Integer(ClTy::I64));
            let (d, counter) = st.declare(ClTy::I64);
            let (s1, from) = d.expr(env, s->start)->Ok_0;
            let a0 = s1.def_var(counter, from).bind(var, counter);
            let (a1, header) = a0.blk();
            let (a2, body_blk) = a1.blk();
            let (a3, incr) = a2.blk();
            let (a4, exit) = a3.blk();
            let s2 = a4.jump(header).switch_to(header);
            let (s3, cur) = s2.read_var(counter);
            let (s4, limit) = s3.expr(env, s->end)->Ok_0;
            let s5 = s4.test_index(cur, limit, body_blk, exit).switch_to(body_blk);
            &&& d.binds(sorts)
            &&& d.expr(env, s->start) is Ok
            &&& s3.expr(env, s->end) is Ok
            &&& s5.awaits(st, seq![incr, exit])
            &&& st.grows_to(d)
            &&& d.grows_to(s1)
            &&& s1.grows_to(a0)
            &&& a0.grows_to(s2)
            &&& s2.grows_to(s3)
            &&& s3.grows_to(s4)
            &&& s4.grows_to(s5)
            &&& a0.binds(more)
            &&& s3.binds(sorts)
            &&& s3.binds(more)
            &&& s3.vars == a0.vars
            &&& s5.vars == a0.vars
            &&& same_vars(st.vars, a0.vars, sorts)
        }),
{
    let var = s->For_var@;
    let more = sorts.insert(var, Sort::Integer(ClTy::I64));
    let (d, counter) = st.declare(ClTy::I64);
    assert(st.awaits(st, Seq::<Blk>::empty()));
    awaits_emit(st, st, Seq::empty(), Inst::DeclareVar { ty: ClTy::I64 });
    meaning::binds_on(st, d, sorts);
    values_are_lowered(d, env, s->start, sorts);
    let (s1, from) = d.expr(env, s->start)->Ok_0;
    awaits_code(st, d, s1, Seq::empty());
    awaits_emit(st, s1, Seq::empty(), Inst::DefVar { var: counter, val: from });
    let a0 = s1.def_var(counter, from).bind(var, counter);
    assert(a0.awaits(st, Seq::<Blk>::empty()));
    if a0.fits() {
        assert(a0.code[st.code.len() as int] == d.code[st.code.len() as int]);
        assert(d.tys[st.code.len() as int] == Some(ClTy::I64));
        assert(s1.code[st.code.len() as int] == d.code[st.code.len() as int]);
    }
    binds_new(st, var, counter, a0, sorts, Sort::Integer(ClTy::I64));
    let (a1, header) = a0.blk();
    let (a2, body_blk) = a1.blk();
    let (a3, incr) = a2.blk();
    let (a4, exit) = a3.blk();
    awaits_blk(st, a0, Seq::empty());
    let b1 = seq![header];
    assert(Seq::<Blk>::empty().push(header) =~= b1);
    awaits_blk(st, a1, b1);
    let b2 = seq![header, body_blk];
    assert(b1.push(body_blk) =~= b2);
    awaits_blk(st, a2, b2);
    let b3 = seq![header, body_blk, incr];
    assert(b2.push(incr) =~= b3);
    awaits_blk(st, a3, b3);
    let b4 = seq![header, body_blk, incr, exit];
    assert(b3.push(exit) =~= b4);
    let a5 = a4.jump(header);
    awaits_emit(st, a4, b4, Inst::Jump { target: header });
    awaits_switch(st, a5, b4, 0);
    let b5 = seq![body_blk, incr, exit];
    assert(b4.remove(0) =~= b5);
    let s2 = a5.switch_to(header);
    awaits_emit(st, s2, b5, Inst::UseVar { var: counter });
    let (s3, cur) = s2.read_var(counter);
    assert(a0.grows_to(s3));
    meaning::binds_on(a0, s3, more);
    meaning::binds_on(a0, s3, sorts);
    values_are_lowered(s3, env, s->end, sorts);
    let (s4, limit) = s3.expr(env, s->end)->Ok_0;
    awaits_code(st, s3, s4, b5);
    let (c0, below) = s4.int_test(IntCc::SignedLessThan, cur, limit);
    awaits_emit(
        st,
        s4,
        b5,
        Inst::IntCompare { icc: IntCc::SignedLessThan, lhs: cur, rhs: limit },
    );
    let c1 = c0.brif(below, body_blk, exit);
    awaits_emit(st, c0, b5, Inst::Brif { cond: below, then_blk: body_blk, else_blk: exit });
    awaits_switch(st, c1, b5, 0);
    let b6 = seq![incr, exit];
    assert(b5.remove(0) =~= b6);
    let s5 = c1.switch_to(body_blk);
    assert(a0.grows_to(s2));
    assert(s4.grows_to(s5));
}

/// The body of a counting loop, the step and what follows.
proof fn for_shape_tail(
    st: St,
    env: EnvView,
    s: TypedStmt,
    sorts: Map<Seq<char>, Sort>,
    more: Map<Seq<char>, Sort>,
    a0: St,
    s2: St,
    s3: St,
    s4: St,
    s5: St,
    counter: Var,
    header: Blk,
    incr: Blk,
    exit: Blk,
)
    requires
        s is For,
        flow::core_body(s->For_body@, 0, more, true),
        same_sorts(sorts, more),
        s5.awaits(st, seq![incr, exit]),
        s3.binds(more),
        s3.vars == a0.vars,
        s5.vars == a0.vars,
        same_vars(st.vars, a0.vars, sorts),
        a0.grows_to(s2),
        s2.grows_to(s3),
        s3.grows_to(s4),
        s4.grows_to(s5),
    ensures
        ({
            let body = s->For_body@;
            let (sb, left) = s5.body(env, Some((incr, exit)), body, 0)->Ok_0;
            let s6 = closed_body(sb, left, incr);
            let s7 = s6.switch_to(incr);
            let s8 = s7.advance(counter, header);
            let t = s8.switch_to(exit);
            &&& s5.body(env, Some((incr, exit)), body, 0) is Ok
            &&& s5.body_into(env, Some((incr, exit)), body, incr) == Ok::<(St, bool), Fail>(
                (s6, left),
            )
            &&& st.leads_to(t, sorts)
            &&& s5.binds(more)
            &&& s5.leads_to(sb, more)
            &&& a0.grows_to(t)
            &&& s2.grows_to(t)
            &&& s3.grows_to(t)
            &&& s4.grows_to(t)
            &&& s5.grows_to(t)
            &&& sb.grows_to(s6)
            &&& s6.grows_to(t)
            &&& s7.grows_to(t)
            &&& s8.grows_to(t)
        }),
    decreases s, 0nat, 0nat,
{
    let body = s->For_body@;
    let b1 = seq![incr, exit];
    meaning::grows_on(s3, s4, s5);
    meaning::binds_on(s3, s5, more);
    reveal(ready);
    reveal(extended);
    let ex: LoopExits = Some((incr, exit));
    body_lowered(s5, env, ex, body, 0, more, true);
    let (sb, left) = s5.body(env, ex, body, 0)->Ok_0;
    awaits_code(st, s5, sb, b1);
    let s6 = closed_body(sb, left, incr);
    if !left {
        awaits_emit(st, sb, b1, Inst::Jump { target: incr });
    }
    assert(sb.grows_to(s6));
    awaits_switch(st, s6, b1, 0);
    let b2 = seq![exit];
    assert(b1.remove(0) =~= b2);
    let s7 = s6.switch_to(incr);
    let (e1, cur) = s7.read_var(counter);
    awaits_emit(st, s7, b2, Inst::UseVar { var: counter });
    let (e2, one) = e1.iconst(ClTy::I64, 1);
    awaits_emit(st, e1, b2, Inst::Iconst { ty: ClTy::I64, imm: 1 });
    let (e3, next) = e2.arith(Arith::Iadd, cur, one);
    awaits_emit(st, e2, b2, Inst::Arith { op: Arith::Iadd, lhs: cur, rhs: one });
    let e4 = e3.def_var(counter, next);
    awaits_emit(st, e3, b2, Inst::DefVar { var: counter, val: next });
    awaits_emit(st, e4, b2, Inst::Jump { target: header });
    let s8 = s7.advance(counter, header);
    assert(s8 == e4.jump(header));
    awaits_switch(st, s8, b2, 0);
    let t = s8.switch_to(exit);
    assert(s8.grows_to(t));
    assert(s7.grows_to(s8));
    assert(s6.grows_to(s7));
    meaning::grows_on(s7, s8, t);
    meaning::grows_on(s6, s7, t);
    meaning::grows_on(s5, sb, s6);
    meaning::grows_on(s5, s6, t);
    meaning::grows_on(s4, s5, t);
    meaning::grows_on(s3, s4, t);
    meaning::grows_on(s2, s3, t);
    meaning::grows_on(a0, s2, t);
    assert forall|n: Seq<char>| #[trigger] sorts.contains_key(n) implies st.vars.contains_key(n)
        && t.vars.contains_key(n) && st.vars[n] == t.vars[n] by {
        assert(more.contains_key(n));
    }
}

/// Whether the code can go on with names bound.
#[verifier::opaque]
pub open spec fn ready(st: St, sorts: Map<Seq<char>, Sort>) -> bool {
    st.binds(sorts)
}

/// Whether code was extended, with names bound behind it.
#[verifier::opaque]
pub open spec fn extended(st: St, t: St, sorts: Map<Seq<char>, Sort>, more: Map<Seq<char>, Sort>) -> bool {
    st.leads_to(t, sorts) && t.binds(more)
}

proof fn extended_on(
    a: St,
    b: St,
    c: St,
    s: TypedStmt,
    sorts: Map<Seq<char>, Sort>,
    looped: bool,
)
    requires
        flow::core_stmt(s, sorts, looped),
        extended(a, b, sorts, flow::after(s, sorts)),
        extended(b, c, flow::after(s, sorts), flow::after(s, sorts)),
        ready(a, sorts),
    ensures
        extended(a, c, sorts, sorts),
{
    reveal(extended);
    reveal(ready);
    leads_on(a, b, c, sorts, flow::after(s, sorts));
    meaning::binds_on(a, c, sorts);
}

proof fn extended_ready(a: St, b: St, sorts: Map<Seq<char>, Sort>, more: Map<Seq<char>, Sort>)
    requires
        extended(a, b, sorts, more),
        ready(a, sorts),
    ensures
        ready(b, more),
        extended(a, b, sorts, sorts),
        extended(a, a, sorts, sorts),
{
    reveal(extended);
    reveal(ready);
    meaning::binds_on(a, b, sorts);
    extended_none(a, sorts);
}

pub proof fn binds_ready(st: St, sorts: Map<Seq<char>, Sort>)
    ensures
        st.binds(sorts) == ready(st, sorts),
{
    reveal(ready);
}

pub proof fn extended_facts(a: St, b: St, sorts: Map<Seq<char>, Sort>, more: Map<Seq<char>, Sort>)
    requires
        extended(a, b, sorts, more),
    ensures
        a.leads_to(b, sorts),
        b.binds(more),
{
    reveal(extended);
}

proof fn extended_none(a: St, sorts: Map<Seq<char>, Sort>)
    requires
        ready(a, sorts),
    ensures
        extended(a, a, sorts, sorts),
{
    reveal(extended);
    reveal(ready);
}

proof fn let_lowered(
    st: St,
    env: EnvView,
    exits: LoopExits,
    s: TypedStmt,
    sorts: Map<Seq<char>, Sort>,
    looped: bool,
)
    requires
        ready(st, sorts),
        flow::core_stmt(s, sorts, looped),
        s is Let,
    ensures
        st.stmt(env, exits, s) is Ok,
        extended(st, st.stmt(env, exits, s)->Ok_0.0, sorts, flow::after(s, sorts)),
{
    reveal(extended);
    reveal(ready);
    let name = s->Let_name@;
    let expr = s->Let_expr;
    if flow::builds(expr) {
        box_builds::built_lowered(st, env, expr, sorts);
    } else {
        values_are_lowered(st, env, expr, sorts);
    }
    let (s1, v) = st.expr(env, expr)->Ok_0;
    let (s2, var) = s1.declare(flow::sort_of(expr).machine());
    let s3 = s2.def_var(var, v);
    let t = s3.bind(name, var);
    assert(st.stmt(env, exits, s) == Ok::<(St, bool), Fail>((t, false)));
    assert(s1.grows_to(t));
    binds_new(s1, name, var, t, sorts, flow::sort_of(expr));
    leads_on(st, s1, t, sorts, sorts);
}

/// An expression and one instruction behind it.
proof fn tail_lowered(st: St, env: EnvView, e: TypedExpr, i: Inst, sorts: Map<Seq<char>, Sort>)
    requires
        ready(st, sorts),
        flow::core_expr(e, sorts),
        !(i is SwitchTo),
    ensures
        st.expr(env, e) is Ok,
        st.expr(env, e)->Ok_0.0.vars == st.vars,
        extended(st, st.expr(env, e)->Ok_0.0.emit(i), sorts, sorts),
{
    reveal(extended);
    reveal(ready);
    values_are_lowered(st, env, e, sorts);
    let s1 = st.expr(env, e)->Ok_0.0;
    let t = s1.emit(i);
    assert(s1.leads_to(t, sorts));
    leads_on(st, s1, t, sorts, sorts);
    meaning::binds_on(st, t, sorts);
}

proof fn assign_lowered(
    st: St,
    env: EnvView,
    exits: LoopExits,
    s: TypedStmt,
    sorts: Map<Seq<char>, Sort>,
    looped: bool,
)
    requires
        ready(st, sorts),
        flow::core_stmt(s, sorts, looped),
        s is Assign,
        s->Assign_target is Ident,
    ensures
        st.stmt(env, exits, s) is Ok,
        extended(st, st.stmt(env, exits, s)->Ok_0.0, sorts, sorts),
{
    let target = s->Assign_target;
    let expr = s->Assign_expr;
    let name = target->Ident_0@;
    let (s1, v) = st.expr(env, expr)->Ok_0;
    let i = Inst::DefVar { var: st.vars[name], val: v };
    assert(st.vars.contains_key(name)) by {
        reveal(ready);
    }
    tail_lowered(st, env, expr, i, sorts);
    assert(st.assign(env, target, expr) == Ok::<(St, bool), Fail>((s1.emit(i), false)));
    assert(st.stmt(env, exits, s) == st.assign(env, target, expr));
}

proof fn return_lowered(
    st: St,
    env: EnvView,
    exits: LoopExits,
    s: TypedStmt,
    sorts: Map<Seq<char>, Sort>,
    looped: bool,
)
    requires
        ready(st, sorts),
        flow::core_stmt(s, sorts, looped),
        s is Return,
    ensures
        st.stmt(env, exits, s) is Ok,
        extended(st, st.stmt(env, exits, s)->Ok_0.0, sorts, sorts),
{
    reveal(extended);
    reveal(ready);
    let expr = s->Return_expr;
    values_are_lowered(st, env, expr, sorts);
    let (s1, v) = st.expr(env, expr)->Ok_0;
    let s2 = before_return(s1, expr, v);
    let t = s2.emit(Inst::Return { val: v });
    if s2 != s1 {
        release_layout::adds_act(s1, RtSym::AggregateRetain, v);
    }
    assert(s1.adds(s2));
    release_layout::adds_emit(s2, Inst::Return { val: v });
    release_layout::adds_on(s1, s2, t);
    assert(s1.leads_to(t, sorts));
    leads_on(st, s1, t, sorts, sorts);
    meaning::binds_on(st, t, sorts);
    assert(st.stmt(env, exits, s) == Ok::<(St, bool), Fail>((t, true)));
}

/// What comes between a value and its return.
pub open spec fn before_return(s1: St, expr: TypedExpr, v: Val) -> St {
    if expr.ty is List && expr.kind is FieldAccess {
        s1.act(RtSym::AggregateRetain, v)
    } else {
        s1
    }
}

proof fn jump_lowered(
    st: St,
    env: EnvView,
    exits: LoopExits,
    s: TypedStmt,
    sorts: Map<Seq<char>, Sort>,
)
    requires
        ready(st, sorts),
        s is Break || s is Continue,
        exits is Some,
    ensures
        st.stmt(env, exits, s) is Ok,
        extended(st, st.stmt(env, exits, s)->Ok_0.0, sorts, sorts),
{
    reveal(extended);
    reveal(ready);
    let target = if s is Break {
        (exits->0).1
    } else {
        (exits->0).0
    };
    let t = st.jump(target);
    assert(st.stmt(env, exits, s) == Ok::<(St, bool), Fail>((t, true)));
    assert(st.leads_to(t, sorts));
    meaning::binds_on(st, t, sorts);
}

proof fn branch_lowered(
    st: St,
    env: EnvView,
    exits: LoopExits,
    s: TypedStmt,
    sorts: Map<Seq<char>, Sort>,
    looped: bool,
)
    requires
        ready(st, sorts),
        flow::core_stmt(s, sorts, looped),
        looped ==> exits is Some,
        s is While || s is For || s is If,
    ensures
        st.stmt(env, exits, s) is Ok,
        extended(st, st.stmt(env, exits, s)->Ok_0.0, sorts, sorts),
    decreases s, 0nat, 2nat,
{
    reveal(extended);
    reveal(ready);
    if s is While {
        while_shape(st, env, exits, s, sorts, looped);
    } else if s is For {
        for_shape(st, env, exits, s, sorts, looped);
    } else if s->else_body is Some {
        if_else_shape(st, env, exits, s, sorts, looped);
    } else {
        if_shape(st, env, exits, s, sorts, looped);
    }
    let t = st.stmt(env, exits, s)->Ok_0.0;
    meaning::binds_on(st, t, sorts);
}

/// The code of statements can be generated.
pub proof fn body_lowered(
    st: St,
    env: EnvView,
    exits: LoopExits,
    b: Seq<TypedStmt>,
    i: nat,
    sorts: Map<Seq<char>, Sort>,
    looped: bool,
)
    requires
        ready(st, sorts),
        flow::core_body(b, i, sorts, looped),
        looped ==> exits is Some,
    ensures
        st.body(env, exits, b, i) is Ok,
        extended(st, st.body(env, exits, b, i)->Ok_0.0, sorts, sorts),
    decreases b, b.len() - i, 0nat,
{
    if i < b.len() {
        let s = b[i as int];
        stmt_lowered(st, env, exits, s, sorts, looped);
        let (t1, left) = st.stmt(env, exits, s)->Ok_0;
        extended_ready(st, t1, sorts, flow::after(s, sorts));
        if !left {
            body_lowered(t1, env, exits, b, i + 1, flow::after(s, sorts), looped);
            let t = t1.body(env, exits, b, i + 1)->Ok_0.0;
            extended_on(st, t1, t, s, sorts, looped);
        }
    } else {
        extended_none(st, sorts);
    }
}

/// The code of a statement can be generated.
pub proof fn stmt_lowered(
    st: St,
    env: EnvView,
    exits: LoopExits,
    s: TypedStmt,
    sorts: Map<Seq<char>, Sort>,
    looped: bool,
)
    requires
        ready(st, sorts),
        flow::core_stmt(s, sorts, looped),
        looped ==> exits is Some,
    ensures
        st.stmt(env, exits, s) is Ok,
        extended(st, st.stmt(env, exits, s)->Ok_0.0, sorts, flow::after(s, sorts)),
    decreases s, 1nat, 0nat,
{
    match s {
        TypedStmt::Let { name, expr } => {
            let_lowered(st, env, exits, s, sorts, looped);
        },
        TypedStmt::Assign { target, expr } => {
            if target is Ident {
                assign_lowered(st, env, exits, s, sorts, looped);
            } else {
                box_writes::write_lowered(st, env, exits, s, sorts, looped);
            }
        },
        TypedStmt::Return { expr } => {
            return_lowered(st, env, exits, s, sorts, looped);
        },
        TypedStmt::While { .. } | TypedStmt::For { .. } | TypedStmt::If { .. } => {
            branch_lowered(st, env, exits, s, sorts, looped);
        },
        TypedStmt::Break | TypedStmt::Continue => {
            jump_lowered(st, env, exits, s, sorts);
        },
        TypedStmt::Match { .. } => {
            match_runs::match_lowered(st, env, exits, s, sorts, looped);
        },
        _ => {
            box_stmts::handle_lowered(st, env, exits, s, sorts, looped);
        },
    }
}

/// The code of several statements is that of the first and then, unless it
/// leaves, that of the others.
pub proof fn body_parts(
    st: St,
    env: EnvView,
    exits: LoopExits,
    b: Seq<TypedStmt>,
    i: nat,
    sorts: Map<Seq<char>, Sort>,
    looped: bool,
)
    requires
        st.binds(sorts),
        flow::core_body(b, i, sorts, looped),
        looped ==> exits is Some,
        i < b.len(),
    ensures
        ({
            let s = b[i as int];
            let more = flow::after(s, sorts);
            let (t1, left) = st.stmt(env, exits, s)->Ok_0;
            &&& flow::core_stmt(s, sorts, looped)
            &&& flow::core_body(b, i + 1, more, looped)
            &&& st.stmt(env, exits, s) is Ok
            &&& st.leads_to(t1, sorts)
            &&& t1.binds(more)
            &&& same_sorts(sorts, more)
            &&& left ==> st.body(env, exits, b, i) == st.stmt(env, exits, s)
            &&& !left ==> {
                &&& t1.body(env, exits, b, i + 1) is Ok
                &&& st.body(env, exits, b, i) == t1.body(env, exits, b, i + 1)
                &&& t1.grows_to(st.body(env, exits, b, i)->Ok_0.0)
            }
        }),
{
    let s = b[i as int];
    let more = flow::after(s, sorts);
    binds_ready(st, sorts);
    stmt_lowered(st, env, exits, s, sorts, looped);
    let (t1, left) = st.stmt(env, exits, s)->Ok_0;
    extended_facts(st, t1, sorts, more);
    binds_ready(t1, more);
    if !left {
        body_lowered(t1, env, exits, b, i + 1, more, looped);
        let t = t1.body(env, exits, b, i + 1)->Ok_0.0;
        extended_facts(t1, t, more, more);
    }
    after_keeps(s, sorts, looped);
}

proof fn after_keeps(s: TypedStmt, sorts: Map<Seq<char>, Sort>, looped: bool)
    requires
        flow::core_stmt(s, sorts, looped),
    ensures
        same_sorts(sorts, flow::after(s, sorts)),
{
}

} // verus!
