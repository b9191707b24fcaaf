//! That code for floating-point expressions computes what they mean.

use crate::codegen_cpu::inst::{Callee, ClTy, Convert, FloatCc, Inst, IntCc, Val};
use crate::codegen_cpu::meaning;
use crate::codegen_cpu::state::{EnvView, St};
use crate::codegen_cpu::straight;
use crate::codegen_cpu::straight::{Around, Line};
use crate::codegen_cpu::symbols::RtSym;
use crate::typed::{BinOp, Lit, ResolvedTy, ScalarTy, TypedExpr, TypedExprKind};
use vstd::prelude::*;

verus! {

/// What an operator between two floating-point numbers leads to. Sums,
/// differences, products and quotients are those of the numbers, a comparison
/// gives zero where it does not hold and something else where it does, and a
/// power is asked of the runtime, with an integer exponent made a number.
pub open spec fn operates(
    around: Around,
    op: BinOp,
    l: Line,
    x: int,
    y: int,
    whole: bool,
    e: Line,
    z: int,
) -> bool {
    match op {
        BinOp::Add | BinOp::Sub | BinOp::Mul | BinOp::Div => {
            &&& op.on(around.n, x, y) == Some(z)
            &&& e.deeds == l.deeds
        },
        BinOp::Pow => {
            let exponent = if whole {
                (around.n.integer)(y)
            } else {
                y
            };
            &&& e.deeds == l.deeds.push(
                straight::asked(RtSym::Powf, seq![x, exponent], l.stack),
            )
            &&& z == (around.answer)(e.deeds)
        },
        _ => {
            &&& op.relates(around.n, x, y) == Some(z != 0)
            &&& meaning::is_mask(z)
            &&& e.deeds == l.deeds
        },
    }
}

/// The code for an operator between two floating-point numbers computes what
/// the operator means, for any numbers. There is code for all operators but the
/// product of matrices, conjunction and disjunction.
pub proof fn float_operators_compute(
    l: Line,
    around: Around,
    st: St,
    op: BinOp,
    a: Val,
    b: Val,
    s: ScalarTy,
) -> (e: Line)
    requires
        s.is_float(),
        l.has(a),
        l.has(b),
        l.passed.len() == 0,
        a.0 < st.code.len(),
        b.0 < st.code.len(),
        st.tys.len() == st.code.len(),
        st.code.len() + 8 <= usize::MAX,
    ensures
        match st.scalar_binop(op, a, b, s) {
            Ok((t, v)) => {
                &&& l.leads(around, st, t, e)
                &&& e.has(v)
                &&& e.vars == l.vars
                &&& e.passed.len() == 0
                &&& operates(
                    around,
                    op,
                    l,
                    l.val(a),
                    l.val(b),
                    st.val_ty(b) != Some(ClTy::F32),
                    e,
                    e.val(v),
                )
            },
            Err(_) => op is Matmul || op is And || op is Or,
        },
{
    let n = around.n;
    let x = l.val(a);
    let y = l.val(b);
    match op {
        BinOp::Add | BinOp::Sub | BinOp::Mul | BinOp::Div => {
            let o = st.scalar_binop(op, a, b, s)->Ok_0.0.code[st.code.len() as int];
            straight::leads_value(l, around, st, o, op.on(n, x, y)->0)
        },
        BinOp::Eq => compared(l, around, st, FloatCc::Equal, a, b),
        BinOp::NotEq => compared(l, around, st, FloatCc::NotEqual, a, b),
        BinOp::Lt => compared(l, around, st, FloatCc::LessThan, a, b),
        BinOp::LtEq => compared(l, around, st, FloatCc::LessThanOrEqual, a, b),
        BinOp::Gt => compared(l, around, st, FloatCc::GreaterThan, a, b),
        BinOp::GtEq => compared(l, around, st, FloatCc::GreaterThanOrEqual, a, b),
        BinOp::Pow => {
            if st.val_ty(b) == Some(ClTy::F32) {
                powered(l, around, st, a, b)
            } else {
                let inst = Inst::Convert { conv: Convert::FcvtFromSint, val: b };
                let (s1, v) = st.convert(Convert::FcvtFromSint, b);
                assert(s1.code[st.code.len() as int] == inst);
                let m = straight::leads_value(l, around, st, inst, (n.integer)(y));
                let e = powered(m, around, s1, a, v);
                straight::leads_on(
                    l,
                    around,
                    st,
                    s1,
                    m,
                    s1.rt(RtSym::Powf, seq![a, v]).0,
                    e,
                );
                e
            }
        },
        _ => l,
    }
}

proof fn powered(l: Line, around: Around, st: St, a: Val, b: Val) -> (e: Line)
    requires
        l.has(a),
        l.has(b),
        l.passed.len() == 0,
        st.tys.len() == st.code.len(),
        st.code.len() + 4 <= usize::MAX,
    ensures
        l.leads(around, st, st.rt(RtSym::Powf, seq![a, b]).0, e),
        e.has(st.rt(RtSym::Powf, seq![a, b]).1),
        e.vars == l.vars,
        e.passed.len() == 0,
        e.deeds == l.deeds.push(
            straight::asked(RtSym::Powf, seq![l.val(a), l.val(b)], l.stack),
        ),
        e.val(st.rt(RtSym::Powf, seq![a, b]).1) == (around.answer)(e.deeds),
{
    let vs = seq![a, b];
    assert(l.all(vs) =~= seq![l.val(a), l.val(b)]);
    straight::leads_call(l, around, st, Callee::Runtime(RtSym::Powf), vs)
}

/// A comparison gives zero where it does not hold and minus one where it does.
proof fn compared(l: Line, around: Around, st: St, fcc: FloatCc, a: Val, b: Val) -> (e: Line)
    requires
        l.has(a),
        l.has(b),
        l.passed.len() == 0,
        st.tys.len() == st.code.len(),
        st.code.len() + 4 <= usize::MAX,
    ensures
        forall|icc: IntCc|
            {
                let (t, v) = #[trigger] st.compare(true, fcc, icc, a, b);
                &&& l.leads(around, st, t, e)
                &&& e.has(v)
                &&& e.val(v) == if straight::holds(around.n, fcc, l.val(a), l.val(b)) {
                    -1int
                } else {
                    0int
                }
            },
        e.vars == l.vars,
        e.passed.len() == 0,
        e.deeds == l.deeds,
{
    let inst = Inst::FloatCompare { fcc, lhs: a, rhs: b };
    let (s1, f) = st.val(inst);
    assert(s1.code[st.code.len() as int] == inst);
    let yes = straight::holds(around.n, fcc, l.val(a), l.val(b));
    let m = straight::leads_value(l, around, st, inst, straight::flag(yes));
    let wide = Inst::Convert { conv: Convert::Bmask8, val: f };
    let t = s1.emit(wide);
    assert(t.code[s1.code.len() as int] == wide);
    let z = if yes {
        -1int
    } else {
        0int
    };
    let e = straight::leads_value(m, around, s1, wide, z);
    straight::leads_on(l, around, st, s1, m, t, e);
    e
}

/// Expressions on floating-point numbers of one type: literals, names, sums,
/// differences, products, quotients and negations.
pub open spec fn float_expr(e: TypedExpr, names: Set<Seq<char>>) -> bool
    decreases e,
{
    (e.ty matches ResolvedTy::Scalar(s) && s.is_float()) && match e.kind {
        TypedExprKind::Lit(l) => l is Float || l is Int,
        TypedExprKind::Ident(n) => names.contains(n@),
        TypedExprKind::BinOp { op, lhs, rhs } => {
            &&& op is Add || op is Sub || op is Mul || op is Div
            &&& lhs.ty == e.ty
            &&& rhs.ty == e.ty
            &&& float_expr(*lhs, names)
            &&& float_expr(*rhs, names)
        },
        TypedExprKind::Unary { op, operand } => {
            &&& op is Neg
            &&& operand.ty == e.ty
            &&& float_expr(*operand, names)
        },
        _ => false,
    }
}

/// What an expression on floating-point numbers means.
pub open spec fn float_value(e: TypedExpr, around: Around, names: Map<Seq<char>, int>) -> int
    decreases e,
{
    match e.kind {
        TypedExprKind::Lit(Lit::Float(f)) => (around.bits)(f.bits),
        TypedExprKind::Lit(Lit::Int(n)) => (around.n.integer)(n as int),
        TypedExprKind::Ident(n) => names[n@],
        TypedExprKind::BinOp { op, lhs, rhs } => op.on(
            around.n,
            float_value(*lhs, around, names),
            float_value(*rhs, around, names),
        )->0,
        TypedExprKind::Unary { op, operand } => op.on(
            around.n,
            float_value(*operand, around, names),
        ),
        _ => 0,
    }
}

/// Whether variables hold the values of names.
pub open spec fn held(st: St, l: Line, names: Map<Seq<char>, int>) -> bool {
    forall|n: Seq<char>| #[trigger]
        names.contains_key(n) ==> st.vars.contains_key(n) && l.vars.contains_key(st.vars[n])
            && l.vars[st.vars[n]] == names[n]
}

/// The code of an expression on floating-point numbers can be generated.
proof fn floats_are_lowered(st: St, env: EnvView, e: TypedExpr, names: Set<Seq<char>>)
    requires
        st.tys.len() == st.code.len(),
        float_expr(e, names),
        forall|n: Seq<char>| #[trigger] names.contains(n) ==> st.vars.contains_key(n),
    ensures
        match st.expr(env, e) {
            Ok((t, v)) => {
                &&& st.grows_to(t)
                &&& t.vars == st.vars
                &&& st.code.len() < t.code.len()
                &&& v.0 == (t.code.len() - 1) as usize
            },
            Err(_) => false,
        },
    decreases e,
{
    match e.kind {
        TypedExprKind::BinOp { op, lhs, rhs } => {
            floats_are_lowered(st, env, *lhs, names);
            let (s1, l) = st.expr(env, *lhs)->Ok_0;
            floats_are_lowered(s1, env, *rhs, names);
            let (s2, r) = s1.expr(env, *rhs)->Ok_0;
            meaning::grows_on(st, s1, s2);
            binop_first(st, env, e);
            let t = s2.scalar_binop(op, l, r, e.ty->Scalar_0)->Ok_0.0;
            assert(s2.grows_to(t));
            meaning::grows_on(st, s2, t);
        },
        TypedExprKind::Unary { op, operand } => {
            floats_are_lowered(st, env, *operand, names);
            negated_first(st, env, e);
            let (s1, x) = st.expr(env, *operand)->Ok_0;
            let t = s1.convert(Convert::Fneg, x).0;
            assert(s1.grows_to(t));
            meaning::grows_on(st, s1, t);
        },
        _ => {},
    }
}

proof fn binop_first(st: St, env: EnvView, e: TypedExpr)
    requires
        e.kind is BinOp,
        e.kind->BinOp_lhs.ty is Scalar,
        !(e.kind->BinOp_rhs.ty is Tensor),
    ensures
        st.expr(env, e) == match st.expr(env, *e.kind->BinOp_lhs) {
            Err(x) => Err(x),
            Ok((s1, l)) => match s1.expr(env, *e.kind->BinOp_rhs) {
                Err(x) => Err(x),
                Ok((s2, r)) => s2.scalar_binop(
                    e.kind->BinOp_op,
                    l,
                    r,
                    e.kind->BinOp_lhs.ty->Scalar_0,
                ),
            },
        },
{
    assert(st.expr(env, e) == st.binop(env, e));
}

proof fn negated_first(st: St, env: EnvView, e: TypedExpr)
    requires
        e.kind is Unary,
        e.kind->Unary_op is Neg,
        e.kind->operand.ty is Scalar,
        e.kind->operand.ty->Scalar_0.is_float(),
    ensures
        st.expr(env, e) == match st.expr(env, *e.kind->operand) {
            Err(x) => Err(x),
            Ok((s1, v)) => Ok(s1.convert(Convert::Fneg, v)),
        },
{
    assert(st.expr(env, e) == st.unary(env, e.kind->Unary_op, *e.kind->operand));
}

/// The code of an expression on floating-point numbers computes its value, for
/// any numbers that the names stand for, and does nothing else.
pub proof fn floats_are_computed(
    l: Line,
    around: Around,
    st: St,
    env: EnvView,
    e: TypedExpr,
    names: Map<Seq<char>, int>,
) -> (end: Line)
    requires
        st.tys.len() == st.code.len(),
        float_expr(e, names.dom()),
        held(st, l, names),
        l.passed.len() == 0,
        st.expr(env, e) matches Ok((t, _)) ==> t.code.len() + 8 <= usize::MAX,
    ensures
        st.expr(env, e) is Ok,
        l.leads(around, st, st.expr(env, e)->Ok_0.0, end),
        end.has(st.expr(env, e)->Ok_0.1),
        end.val(st.expr(env, e)->Ok_0.1) == float_value(e, around, names),
        end.deeds == l.deeds,
        end.vars == l.vars,
        end.passed.len() == 0,
    decreases e,
{
    floats_are_lowered(st, env, e, names.dom());
    match e.kind {
        TypedExprKind::Lit(x) => {
            let inst = st.expr(env, e)->Ok_0.0.code[st.code.len() as int];
            straight::leads_value(l, around, st, inst, float_value(e, around, names))
        },
        TypedExprKind::Ident(n) => {
            assert(names.contains_key(n@));
            let inst = Inst::UseVar { var: st.vars[n@] };
            assert(st.emit(inst).code[st.code.len() as int] == inst);
            straight::leads_value(l, around, st, inst, names[n@])
        },
        TypedExprKind::BinOp { op, lhs, rhs } => {
            floats_are_lowered(st, env, *lhs, names.dom());
            let (s1, a) = st.expr(env, *lhs)->Ok_0;
            floats_are_lowered(s1, env, *rhs, names.dom());
            let (s2, b) = s1.expr(env, *rhs)->Ok_0;
            binop_first(st, env, e);
            let m1 = floats_are_computed(l, around, st, env, *lhs, names);
            let m2 = floats_are_computed(m1, around, s1, env, *rhs, names);
            straight::leads_on(l, around, st, s1, m1, s2, m2);
            assert(m2.has(a) && m2.val(a) == m1.val(a)) by {
                assert(m1.vals.contains_key(a.0 as nat));
                assert(m2.vals.contains_key(a.0 as nat));
            }
            let end = float_operators_compute(m2, around, s2, op, a, b, e.ty->Scalar_0);
            let t = st.expr(env, e)->Ok_0.0;
            straight::leads_on(l, around, st, s2, m2, t, end);
            end
        },
        TypedExprKind::Unary { op, operand } => {
            floats_are_lowered(st, env, *operand, names.dom());
            negated_first(st, env, e);
            let (s1, x) = st.expr(env, *operand)->Ok_0;
            let m = floats_are_computed(l, around, st, env, *operand, names);
            let inst = Inst::Convert { conv: Convert::Fneg, val: x };
            assert(s1.emit(inst).code[s1.code.len() as int] == inst);
            let end = straight::leads_value(
                m,
                around,
                s1,
                inst,
                float_value(e, around, names),
            );
            straight::leads_on(l, around, st, s1, m, s1.emit(inst), end);
            end
        },
        _ => l,
    }
}

} // verus!
