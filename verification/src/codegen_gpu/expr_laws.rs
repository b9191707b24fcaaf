//! That the expressions of kernels keep their meaning in kernel sources.

use crate::codegen_gpu::error::Fail;
use crate::codegen_gpu::explicit;
use crate::codegen_gpu::explicit::{Intrinsic, Names};
use crate::codegen_gpu::implicit;
use crate::codegen_gpu::kernel_laws;
use crate::codegen_gpu::reading;
use crate::codegen_gpu::reading::{Scope, Term};
use crate::codegen_gpu::reading_laws;
use crate::codegen_gpu::reading_laws::{is_name, passage, phrase};
use crate::numbers;
use crate::numbers::Numbers;
use crate::text;
use crate::typed::{BinOp, Lit, TypedExpr, TypedExprKind, TypedParam, UnaryOp};
use vstd::prelude::*;

verus! {

/// Names that can stand for something: words that mean nothing else.
pub open spec fn is_free(n: Seq<char>) -> bool {
    is_name(n) && n != "true"@ && n != "false"@
}

/// Literals as a program has them: numbers without a sign.
pub open spec fn is_plain(l: Lit) -> bool {
    match l {
        Lit::Float(f) => reading::is_number(f.text@),
        Lit::Int(k) => k >= 0,
        Lit::Bool(_) => true,
        Lit::Str(_) => false,
    }
}

/// The value of a literal.
pub open spec fn literal_value(l: Lit, n: Numbers) -> int {
    match l {
        Lit::Float(f) => (n.decimal)(f.text@),
        Lit::Int(k) => (n.integer)(k as int),
        Lit::Bool(b) => (n.truth)(b),
        Lit::Str(_) => 0,
    }
}

/// A literal is read as its value.
pub proof fn literal_read(l: Lit) -> (t: Term)
    requires
        is_plain(l),
    ensures
        l.msl() is Ok,
        phrase(l.msl()->Ok_0, t),
        forall|n: Numbers, scope: Scope| #[trigger]
            t.value(n, scope) == Some(literal_value(l, n)),
{
    reveal_strlit("f");
    reveal_strlit("true");
    reveal_strlit("false");
    match l {
        Lit::Float(f) => {
            reading_laws::decimal_phrase(f.text@);
            assert("f"@ =~= seq!['f']);
            Term::Decimal(f.text@)
        },
        Lit::Int(k) => {
            reading_laws::digits_phrase(k as nat);
            numbers::decimals_are_read_back(k as nat);
            Term::Digits(text::decimal(k as nat))
        },
        Lit::Bool(b) => {
            let w = if b {
                "true"@
            } else {
                "false"@
            };
            assert("true"@ =~= seq!['t', 'r', 'u', 'e']);
            assert("false"@ =~= seq!['f', 'a', 'l', 's', 'e']);
            reading_laws::name_phrase(w);
            Term::Name(w)
        },
        Lit::Str(_) => Term::Name(Seq::empty()),
    }
}

pub proof fn name_value(x: Seq<char>, n: Numbers, scope: Scope)
    requires
        is_free(x),
    ensures
        Term::Name(x).value(n, scope) == Some((scope.value)(x)),
{
    reveal_strlit("true");
    reveal_strlit("false");
    assert("true"@ =~= seq!['t', 'r', 'u', 'e']);
    assert("false"@ =~= seq!['f', 'a', 'l', 's', 'e']);
}

/// An operator in brackets between two terms is a term.
proof fn infix_read(op: BinOp, a: Seq<char>, l: Term, b: Seq<char>, r: Term, n: Numbers) -> (t: Term)
    requires
        op.msl() is Ok,
        phrase(a, l),
        phrase(b, r),
    ensures
        phrase("("@ + a + " "@ + op.msl()->Ok_0 + " "@ + b + ")"@, t),
        forall|scope: Scope| #[trigger]
            t.value(n, scope) == match (l.value(n, scope), r.value(n, scope)) {
                (Some(x), Some(y)) => op.on(n, x, y),
                _ => None,
            },
{
    reveal_strlit("(");
    reveal_strlit(" ");
    reveal_strlit(")");
    let o = op.msl()->Ok_0;
    let infix = kernel_laws::operators_are_read_back(op, n);
    reading_laws::infix_passage(a, l, o, infix, b, r);
    let t = Term::Infix(infix, Box::new(l), Box::new(r));
    let inner = a + seq![' '] + o + seq![' '] + b;
    reading_laws::bracket_phrase(inner, t);
    assert("("@ =~= seq!['('] && " "@ =~= seq![' '] && ")"@ =~= seq![')']);
    assert("("@ + a + " "@ + o + " "@ + b + ")"@ =~= seq!['('] + inner + seq![')']);
    assert forall|scope: Scope| #[trigger]
        t.value(n, scope) == match (l.value(n, scope), r.value(n, scope)) {
        (Some(x), Some(y)) => op.on(n, x, y),
        _ => None,
    } by {
        reading_laws::infix_value(infix, l, r, n, scope);
        match (l.value(n, scope), r.value(n, scope)) {
            (Some(x), Some(y)) => {
                assert(op.on(n, x, y) == Some(infix.on(n, x, y)));
            },
            _ => {},
        }
    }
    t
}

/// A sign in brackets before a term is a term.
proof fn signed_read(op: UnaryOp, a: Seq<char>, l: Term) -> (t: Term)
    requires
        phrase(a, l),
    ensures
        op is Neg ==> phrase("(-"@ + a + ")"@, t),
        op is Not ==> phrase("(!"@ + a + ")"@, t),
        forall|n: Numbers, scope: Scope| #[trigger]
            t.value(n, scope) == match l.value(n, scope) {
                Some(x) => Some(op.on(n, x)),
                None => None,
            },
{
    reveal_strlit("(-");
    reveal_strlit("(!");
    reveal_strlit(")");
    reading_laws::sign_passage(a, l);
    let (c, t) = if op is Neg {
        ('-', Term::Negative(Box::new(l)))
    } else {
        ('!', Term::Not(Box::new(l)))
    };
    reading_laws::bracket_phrase(seq![c] + a, t);
    assert("(-"@ + a + ")"@ =~= seq!['('] + (seq!['-'] + a) + seq![')']);
    assert("(!"@ + a + ")"@ =~= seq!['('] + (seq!['!'] + a) + seq![')']);
    t
}

/// Expressions of a mapped kernel whose names and literals are plain.
pub open spec fn mapped_plain(e: TypedExpr) -> bool
    decreases e,
{
    match e.kind {
        TypedExprKind::Ident(x) => is_free(x@),
        TypedExprKind::Lit(l) => is_plain(l),
        TypedExprKind::BinOp { lhs, rhs, .. } => mapped_plain(*lhs) && mapped_plain(*rhs),
        TypedExprKind::Unary { operand, .. } => mapped_plain(*operand),
        _ => true,
    }
}

/// What an expression of a mapped kernel means: parameters stand for their
/// element at the position of the thread.
pub open spec fn mapped_value(
    e: TypedExpr,
    params: Seq<TypedParam>,
    n: Numbers,
    scope: Scope,
) -> Option<int>
    decreases e,
{
    match e.kind {
        TypedExprKind::Ident(x) => Some(
            if implicit::is_param(params, x@) {
                (scope.element)(x@, (scope.value)("tid"@))
            } else {
                (scope.value)(x@)
            },
        ),
        TypedExprKind::Lit(l) => Some(literal_value(l, n)),
        TypedExprKind::BinOp { op, lhs, rhs } => match (
            mapped_value(*lhs, params, n, scope),
            mapped_value(*rhs, params, n, scope),
        ) {
            (Some(a), Some(b)) => op.on(n, a, b),
            _ => None,
        },
        TypedExprKind::Unary { op, operand } => match mapped_value(*operand, params, n, scope) {
            Some(a) => Some(op.on(n, a)),
            None => None,
        },
        _ => None,
    }
}

/// What is written for an expression of a mapped kernel is read as a term with
/// the value of the expression, whatever the names stand for.
pub proof fn mapped_expressions_keep_their_meaning(
    e: TypedExpr,
    params: Seq<TypedParam>,
    locals: Seq<Seq<char>>,
    n: Numbers,
) -> (t: Term)
    requires
        mapped_plain(e),
        e.mapped(params, locals) is Ok,
    ensures
        phrase(e.mapped(params, locals)->Ok_0, t),
        forall|scope: Scope| #[trigger]
            t.value(n, scope) == mapped_value(e, params, n, scope),
    decreases e,
{
    match e.kind {
        TypedExprKind::Ident(x) => {
            if implicit::is_param(params, x@) {
                kernel_laws::here_phrase(x@);
                kernel_laws::here(x@)
            } else {
                reading_laws::name_phrase(x@);
                assert forall|scope: Scope| #[trigger]
                    Term::Name(x@).value(n, scope) == mapped_value(e, params, n, scope) by {
                    name_value(x@, n, scope);
                }
                Term::Name(x@)
            }
        },
        TypedExprKind::Lit(l) => literal_read(l),
        TypedExprKind::BinOp { op, lhs, rhs } => {
            let l = mapped_expressions_keep_their_meaning(*lhs, params, locals, n);
            let r = mapped_expressions_keep_their_meaning(*rhs, params, locals, n);
            let a = lhs.mapped(params, locals)->Ok_0;
            let b = rhs.mapped(params, locals)->Ok_0;
            let t = infix_read(op, a, l, b, r, n);
            assert forall|scope: Scope| #[trigger]
                t.value(n, scope) == mapped_value(e, params, n, scope) by {
                assert(l.value(n, scope) == mapped_value(*lhs, params, n, scope));
                assert(r.value(n, scope) == mapped_value(*rhs, params, n, scope));
            }
            t
        },
        TypedExprKind::Unary { op, operand } => {
            let l = mapped_expressions_keep_their_meaning(*operand, params, locals, n);
            let t = signed_read(op, operand.mapped(params, locals)->Ok_0, l);
            assert forall|scope: Scope| #[trigger]
                t.value(n, scope) == mapped_value(e, params, n, scope) by {
                assert(l.value(n, scope) == mapped_value(*operand, params, n, scope));
            }
            t
        },
        _ => Term::Name(Seq::empty()),
    }
}

/// What functions of one number in a kernel mean.
pub open spec fn one_valued(name: Seq<char>, n: Numbers, x: int) -> Option<int> {
    if name == "rsqrt"@ {
        Some((n.rsqrt)(x))
    } else {
        kernel_laws::function_value(name, n, x)
    }
}

/// What functions of two numbers in a kernel mean.
pub open spec fn two_valued(name: Seq<char>, n: Numbers, x: int, y: int) -> Option<int> {
    if name == "fmax"@ {
        Some(n.larger(x, y))
    } else if name == "fmin"@ {
        Some(n.smaller(x, y))
    } else if name == "pow"@ {
        Some((n.power)(x, y))
    } else {
        None
    }
}

/// Functions of one number.
pub open spec fn is_one(f: Seq<char>) -> bool {
    f == "relu"@ || f == "sigmoid"@ || f == "tanh"@ || f == "exp"@ || f == "log"@ || f == "sqrt"@
        || f == "abs"@ || f == "rsqrt"@
}

/// Functions of two numbers.
pub open spec fn is_two(f: Seq<char>) -> bool {
    f == "fmax"@ || f == "fmin"@ || f == "pow"@
}

/// Expressions of a kernel with plain names and literals: numbers, elements at
/// one index, extents of tensors, values of the thread hierarchy, and functions
/// of one or two numbers.
pub open spec fn plain(names: Names, e: TypedExpr) -> bool
    decreases e,
{
    match e.kind {
        TypedExprKind::Ident(x) => is_free(x@),
        TypedExprKind::Lit(l) => is_plain(l),
        TypedExprKind::BinOp { lhs, rhs, .. } => plain(names, *lhs) && plain(names, *rhs),
        TypedExprKind::Unary { operand, .. } => plain(names, *operand),
        TypedExprKind::Index { base, indices } => {
            &&& indices@.len() == 1
            &&& plain(names, indices@[0])
            &&& match base.kind {
                TypedExprKind::Ident(x) => is_free(x@) && (names.tensors.contains(x@) || x@
                    == "out"@ || !names.scalars.contains(x@)),
                TypedExprKind::FieldAccess { base: of, field } => {
                    &&& field@ == "shape"@ || field@ == "strides"@
                    &&& of.kind matches TypedExprKind::Ident(x)
                    &&& is_free(x@)
                },
                _ => false,
            }
        },
        TypedExprKind::FieldAccess { base, field } => {
            &&& field@ == "ndim"@
            &&& base.kind matches TypedExprKind::Ident(x)
            &&& is_free(x@)
        },
        TypedExprKind::Call { callee, args } => {
            ||| intrinsic_named(callee@) is Some
            ||| is_one(callee@) && args@.len() == 1 && plain(names, args@[0])
            ||| is_two(callee@) && args@.len() == 2 && plain(names, args@[0]) && plain(
                names,
                args@[1],
            )
        },
        _ => false,
    }
}

/// The value of the thread hierarchy that a function reads.
pub open spec fn intrinsic_named(f: Seq<char>) -> Option<Intrinsic> {
    if f == "thread_id"@ {
        Some(Intrinsic::ThreadId)
    } else if f == "threadgroup_id"@ {
        Some(Intrinsic::ThreadgroupId)
    } else if f == "thread_in_threadgroup"@ {
        Some(Intrinsic::ThreadInThreadgroup)
    } else if f == "threads_per_threadgroup"@ {
        Some(Intrinsic::ThreadsPerThreadgroup)
    } else if f == "threads_per_grid"@ {
        Some(Intrinsic::ThreadsPerGrid)
    } else {
        None
    }
}

/// The structure that describes a tensor.
pub open spec fn meta(x: Seq<char>) -> Seq<char> {
    x + "_meta"@
}

/// What an expression of a kernel means. Scalar parameters are members of a
/// structure.
pub open spec fn explicit_value(names: Names, e: TypedExpr, n: Numbers, scope: Scope) -> Option<int>
    decreases e,
{
    match e.kind {
        TypedExprKind::Ident(x) => Some(
            if names.scalars.contains(x@) && !names.tensors.contains(x@) && x@ != "out"@ {
                (scope.member)("u"@, x@)
            } else {
                (scope.value)(x@)
            },
        ),
        TypedExprKind::Lit(l) => Some(literal_value(l, n)),
        TypedExprKind::BinOp { op, lhs, rhs } => match (
            explicit_value(names, *lhs, n, scope),
            explicit_value(names, *rhs, n, scope),
        ) {
            (Some(a), Some(b)) => op.on(n, a, b),
            _ => None,
        },
        TypedExprKind::Unary { op, operand } => match explicit_value(names, *operand, n, scope) {
            Some(a) => Some(op.on(n, a)),
            None => None,
        },
        TypedExprKind::Index { base, indices } => if indices@.len() == 1 {
            match explicit_value(names, indices@[0], n, scope) {
                Some(i) => match base.kind {
                    TypedExprKind::Ident(x) => Some((scope.element)(x@, i)),
                    TypedExprKind::FieldAccess { base: of, field } => match of.kind {
                        TypedExprKind::Ident(x) => Some(
                            (n.whole)((scope.member_element)(meta(x@), field@, i)),
                        ),
                        _ => None,
                    },
                    _ => None,
                },
                None => None,
            }
        } else {
            None
        },
        TypedExprKind::FieldAccess { base, field } => match base.kind {
            TypedExprKind::Ident(x) => Some((n.whole)((scope.member)(meta(x@), "ndim"@))),
            _ => None,
        },
        TypedExprKind::Call { callee, args } => match intrinsic_named(callee@) {
            Some(x) => Some((n.whole)((scope.value)(x.holder()))),
            None => if args@.len() == 1 {
                match explicit_value(names, args@[0], n, scope) {
                    Some(a) => one_valued(callee@, n, a),
                    None => None,
                }
            } else if args@.len() == 2 {
                match (
                    explicit_value(names, args@[0], n, scope),
                    explicit_value(names, args@[1], n, scope),
                ) {
                    (Some(a), Some(b)) => two_valued(callee@, n, a, b),
                    _ => None,
                }
            } else {
                None
            },
        },
        _ => None,
    }
}

/// A term does not begin with a closing bracket.
proof fn phrase_begins(a: Seq<char>, t: Term)
    requires
        phrase(a, t),
    ensures
        a[0] != ')',
{
    assert(a.subrange(0, a.len() as int) =~= a);
    assert(reading::at(a, 0, a));
    assert(reading_laws::closes(a, a.len()));
    let cast = seq!['(', 'i', 'n', 't', ')'];
    if reading::at(a, 0, cast) {
        reading_laws::at_char(a, 0, cast, 0);
    }
}

/// A call of a function of one number.
proof fn one_read(f: Seq<char>, a: Seq<char>, h: Term, n: Numbers) -> (t: Term)
    requires
        is_one(f),
        f != "relu"@,
        f != "sigmoid"@,
        phrase(a, h),
    ensures
        explicit::math_fn(f) is Some,
        phrase(explicit::math_fn(f)->0 + "("@ + a + ")"@, t),
        forall|scope: Scope| #[trigger]
            t.value(n, scope) == match h.value(n, scope) {
                Some(x) => one_valued(f, n, x),
                None => None,
            },
{
    reveal_strlit("relu");
    reveal_strlit("sigmoid");
    reveal_strlit("tanh");
    reveal_strlit("exp");
    reveal_strlit("log");
    reveal_strlit("sqrt");
    reveal_strlit("rsqrt");
    reveal_strlit("abs");
    reveal_strlit("fabs");
    reveal_strlit("(");
    reveal_strlit(")");
    let g = explicit::math_fn(f)->0;
    assert("tanh"@ =~= seq!['t', 'a', 'n', 'h']);
    assert("exp"@ =~= seq!['e', 'x', 'p']);
    assert("log"@ =~= seq!['l', 'o', 'g']);
    assert("sqrt"@ =~= seq!['s', 'q', 'r', 't']);
    assert("rsqrt"@ =~= seq!['r', 's', 'q', 'r', 't']);
    assert("fabs"@ =~= seq!['f', 'a', 'b', 's']);
    assert("relu"@ =~= seq!['r', 'e', 'l', 'u']);
    assert("abs"@ =~= seq!['a', 'b', 's']);
    assert("exp"@[0] != "log"@[0] && "exp"@[0] != "abs"@[0] && "log"@[0] != "abs"@[0]);
    assert("tanh"@[0] != "sqrt"@[0] && "tanh"@[0] != "relu"@[0] && "sqrt"@[0] != "relu"@[0]);
    phrase_begins(a, h);
    reading_laws::phrase_passage(a, h);
    reading_laws::call_phrase(g, a, h);
    assert("("@ =~= seq!['('] && ")"@ =~= seq![')']);
    let t = Term::Apply(g, seq![h]);
    assert forall|scope: Scope| #[trigger]
        t.value(n, scope) == match h.value(n, scope) {
        Some(x) => one_valued(f, n, x),
        None => None,
    } by {
        kernel_laws::one_value(h, n, scope);
    }
    t
}

/// A call of a function of two numbers.
proof fn two_read(f: Seq<char>, a: Seq<char>, h: Term, b: Seq<char>, k: Term, n: Numbers) -> (t:
    Term)
    requires
        is_two(f),
        phrase(a, h),
        phrase(b, k),
    ensures
        explicit::math_fn(f) is Some,
        phrase(explicit::math_fn(f)->0 + "("@ + (a + ", "@ + b) + ")"@, t),
        phrase("pow("@ + a + ", "@ + b + ")"@, t) || f != "pow"@,
        forall|scope: Scope| #[trigger]
            t.value(n, scope) == match (h.value(n, scope), k.value(n, scope)) {
                (Some(x), Some(y)) => two_valued(f, n, x, y),
                _ => None,
            },
{
    reveal_strlit("exp");
    reveal_strlit("log");
    reveal_strlit("sqrt");
    reveal_strlit("rsqrt");
    reveal_strlit("tanh");
    reveal_strlit("abs");
    reveal_strlit("fmax");
    reveal_strlit("fmin");
    reveal_strlit("pow");
    reveal_strlit("pow(");
    reveal_strlit("(");
    reveal_strlit(")");
    reveal_strlit(", ");
    assert("fmax"@ =~= seq!['f', 'm', 'a', 'x']);
    assert("fmin"@ =~= seq!['f', 'm', 'i', 'n']);
    assert("pow"@ =~= seq!['p', 'o', 'w']);
    assert("fmax"@[2] != "fmin"@[2]);
    assert("fmax"@[0] != "sqrt"@[0] && "fmax"@[0] != "tanh"@[0]);
    assert("fmin"@[0] != "sqrt"@[0] && "fmin"@[0] != "tanh"@[0]);
    assert("pow"@[0] != "exp"@[0] && "pow"@[0] != "log"@[0] && "pow"@[0] != "abs"@[0]);
    let g = explicit::math_fn(f)->0;
    assert(g == f);
    phrase_begins(a, h);
    reading_laws::phrase_passage(a, h);
    reading_laws::phrase_passage(b, k);
    reading_laws::call2_phrase(g, a, h, b, k);
    assert("("@ =~= seq!['('] && ")"@ =~= seq![')'] && ", "@ =~= seq![',', ' ']);
    let u = g + seq!['('] + a + seq![',', ' '] + b + seq![')'];
    assert(g + "("@ + (a + ", "@ + b) + ")"@ =~= u);
    if f == "pow"@ {
        assert("pow("@ =~= g + seq!['(']);
    }
    let t = Term::Apply(g, seq![h, k]);
    assert forall|scope: Scope| #[trigger]
        t.value(n, scope) == match (h.value(n, scope), k.value(n, scope)) {
        (Some(x), Some(y)) => two_valued(f, n, x, y),
        _ => None,
    } by {
        kernel_laws::two_values(h, k, n, scope);
    }
    t
}

/// Functions are no values of the thread hierarchy and no barriers.
proof fn functions_apart(f: Seq<char>)
    requires
        is_one(f) || is_two(f),
    ensures
        explicit::intrinsic_holder(f) is None,
        intrinsic_named(f) is None,
        f != "barrier"@,
        is_one(f) ==> !is_two(f),
        is_two(f) ==> f != "relu"@ && f != "sigmoid"@,
{
    reveal_strlit("relu");
    reveal_strlit("sigmoid");
    reveal_strlit("tanh");
    reveal_strlit("exp");
    reveal_strlit("log");
    reveal_strlit("sqrt");
    reveal_strlit("rsqrt");
    reveal_strlit("abs");
    reveal_strlit("fmax");
    reveal_strlit("fmin");
    reveal_strlit("pow");
    reveal_strlit("barrier");
    reveal_strlit("thread_id");
    reveal_strlit("threadgroup_id");
    reveal_strlit("thread_in_threadgroup");
    reveal_strlit("threads_per_threadgroup");
    reveal_strlit("threads_per_grid");
    assert(f.len() <= 7);
    assert("thread_id"@.len() > 7 && "threadgroup_id"@.len() > 7 && "thread_in_threadgroup"@.len()
        > 7 && "threads_per_threadgroup"@.len() > 7 && "threads_per_grid"@.len() > 7);
    assert("barrier"@[0] != "sigmoid"@[0]);
    assert("fmax"@[0] != "relu"@[0] && "fmax"@[0] != "tanh"@[0] && "fmax"@[0] != "sqrt"@[0]);
    assert("fmin"@[0] != "relu"@[0] && "fmin"@[0] != "tanh"@[0] && "fmin"@[0] != "sqrt"@[0]);
    assert("pow"@[0] != "exp"@[0] && "pow"@[0] != "log"@[0] && "pow"@[0] != "abs"@[0]);
}

proof fn meta_name(x: Seq<char>)
    requires
        is_name(x),
    ensures
        is_name(meta(x)),
{
    reveal_strlit("_meta");
    let m = meta(x);
    assert("_meta"@ =~= seq!['_', 'm', 'e', 't', 'a']);
    assert forall|i: int| 0 <= i < m.len() implies reading::is_word_char(#[trigger] m[i]) by {
        if i < x.len() {
            assert(m[i] == x[i]);
        } else {
            assert(m[i] == "_meta"@[i - x.len()]);
        }
    }
    assert(m[0] == x[0]);
    assert(m.len() >= 6);
}

/// Extents of tensors.
pub proof fn extent_read(x: Seq<char>, field: Seq<char>, i: Seq<char>, k: Term) -> (t: Term)
    requires
        is_free(x),
        field == "shape"@ || field == "strides"@,
        phrase(i, k),
    ensures
        phrase("(int)"@ + x + "_meta."@ + field + "["@ + i + "]"@, t),
        forall|n: Numbers, scope: Scope| #[trigger]
            t.value(n, scope) == match k.value(n, scope) {
                Some(y) => Some((n.whole)((scope.member_element)(meta(x), field, y))),
                None => None,
            },
{
    reveal_strlit("shape");
    reveal_strlit("strides");
    reveal_strlit("(int)");
    reveal_strlit("_meta.");
    reveal_strlit("_meta");
    reveal_strlit("[");
    reveal_strlit("]");
    meta_name(x);
    assert("shape"@ =~= seq!['s', 'h', 'a', 'p', 'e']);
    assert("strides"@ =~= seq!['s', 't', 'r', 'i', 'd', 'e', 's']);
    assert(reading::is_word(field));
    reading_laws::phrase_passage(i, k);
    reading_laws::member_element_phrase(meta(x), field, i, k);
    let u = meta(x) + seq!['.'] + field + seq!['['] + i + seq![']'];
    let of = Term::Member(Box::new(Term::Name(meta(x))), field);
    let inner = Term::Element(Box::new(of), Box::new(k));
    reading_laws::cast_phrase(u, inner);
    let t = Term::Whole(Box::new(inner));
    assert("(int)"@ =~= seq!['(', 'i', 'n', 't', ')']);
    assert("_meta."@ =~= "_meta"@ + seq!['.']);
    assert("["@ =~= seq!['['] && "]"@ =~= seq![']']);
    assert("(int)"@ + x + "_meta."@ + field + "["@ + i + "]"@ =~= seq!['(', 'i', 'n', 't', ')']
        + u);
    reveal_with_fuel(Term::value, 3);
    t
}

/// The number of dimensions of a tensor.
proof fn rank_read(x: Seq<char>) -> (t: Term)
    requires
        is_free(x),
    ensures
        phrase("(int)"@ + x + "_meta.ndim"@, t),
        forall|n: Numbers, scope: Scope| #[trigger]
            t.value(n, scope) == Some((n.whole)((scope.member)(meta(x), "ndim"@))),
{
    reveal_strlit("ndim");
    reveal_strlit("(int)");
    reveal_strlit("_meta.ndim");
    reveal_strlit("_meta");
    meta_name(x);
    let field = "ndim"@;
    assert(field =~= seq!['n', 'd', 'i', 'm']);
    reading_laws::member_phrase(meta(x), field);
    let u = meta(x) + seq!['.'] + field;
    let inner = Term::Member(Box::new(Term::Name(meta(x))), field);
    reading_laws::cast_phrase(u, inner);
    let t = Term::Whole(Box::new(inner));
    assert("(int)"@ =~= seq!['(', 'i', 'n', 't', ')']);
    assert("_meta.ndim"@ =~= "_meta"@ + seq!['.'] + field);
    assert("(int)"@ + x + "_meta.ndim"@ =~= seq!['(', 'i', 'n', 't', ')'] + u);
    reveal_with_fuel(Term::value, 3);
    t
}

/// A value of the thread hierarchy.
proof fn intrinsic_read(f: Seq<char>) -> (t: Term)
    requires
        intrinsic_named(f) is Some,
    ensures
        explicit::intrinsic_holder(f) is Some,
        phrase("(int)"@ + explicit::intrinsic_holder(f)->0, t),
        forall|n: Numbers, scope: Scope| #[trigger]
            t.value(n, scope) == Some((n.whole)((scope.value)(intrinsic_named(f)->0.holder()))),
{
    reveal_strlit("_tid");
    reveal_strlit("_tgid");
    reveal_strlit("_lid");
    reveal_strlit("_tgsize");
    reveal_strlit("_gridsize");
    reveal_strlit("(int)");
    reveal_strlit("true");
    reveal_strlit("false");
    let v = explicit::intrinsic_holder(f)->0;
    assert(v == intrinsic_named(f)->0.holder());
    assert("_tid"@ =~= seq!['_', 't', 'i', 'd']);
    assert("_tgid"@ =~= seq!['_', 't', 'g', 'i', 'd']);
    assert("_lid"@ =~= seq!['_', 'l', 'i', 'd']);
    assert("_tgsize"@ =~= seq!['_', 't', 'g', 's', 'i', 'z', 'e']);
    assert("_gridsize"@ =~= seq!['_', 'g', 'r', 'i', 'd', 's', 'i', 'z', 'e']);
    assert("(int)"@ =~= seq!['(', 'i', 'n', 't', ')']);
    assert(is_name(v));
    reading_laws::name_phrase(v);
    reading_laws::cast_phrase(v, Term::Name(v));
    assert(v[0] != "true"@[0] && v[0] != "false"@[0]);
    let t = Term::Whole(Box::new(Term::Name(v)));
    assert forall|n: Numbers, scope: Scope| #[trigger]
        t.value(n, scope) == Some((n.whole)((scope.value)(v))) by {
        name_value(v, n, scope);
    }
    t
}

/// An element of an array at one index.
proof fn element_read(x: Seq<char>, i: Seq<char>, k: Term) -> (t: Term)
    requires
        is_free(x),
        phrase(i, k),
    ensures
        phrase(x + "["@ + i + "]"@, t),
        forall|n: Numbers, scope: Scope| #[trigger]
            t.value(n, scope) == match k.value(n, scope) {
                Some(y) => Some((scope.element)(x, y)),
                None => None,
            },
{
    reveal_strlit("[");
    reveal_strlit("]");
    assert("["@ =~= seq!['['] && "]"@ =~= seq![']']);
    reading_laws::phrase_passage(i, k);
    reading_laws::element_phrase(x, i, k);
    Term::Element(Box::new(Term::Name(x)), Box::new(k))
}

/// A name, or a member of the structure of scalar parameters.
proof fn ident_read(names: Names, x: Seq<char>) -> (t: Term)
    requires
        is_free(x),
    ensures
        ({
            let member = names.scalars.contains(x) && !names.tensors.contains(x) && x != "out"@;
            &&& phrase(
                if member {
                    "u."@ + x
                } else {
                    x
                },
                t,
            )
            &&& forall|n: Numbers, scope: Scope| #[trigger]
                t.value(n, scope) == Some(
                    if member {
                        (scope.member)("u"@, x)
                    } else {
                        (scope.value)(x)
                    },
                )
        }),
{
    if names.scalars.contains(x) && !names.tensors.contains(x) && x != "out"@ {
        reveal_strlit("u");
        reveal_strlit("u.");
        assert("u"@ =~= seq!['u']);
        assert("u."@ =~= "u"@ + seq!['.']);
        reading_laws::member_phrase("u"@, x);
        Term::Member(Box::new(Term::Name("u"@)), x)
    } else {
        reading_laws::name_phrase(x);
        assert forall|n: Numbers, scope: Scope| #[trigger]
            Term::Name(x).value(n, scope) == Some((scope.value)(x)) by {
            name_value(x, n, scope);
        }
        Term::Name(x)
    }
}

/// What is written for an expression of a kernel is read as a term with the
/// value of the expression, whatever the names stand for.
#[verifier::spinoff_prover]
#[verifier::rlimit(60)]
pub proof fn kernel_expressions_keep_their_meaning(names: Names, e: TypedExpr, n: Numbers) -> (t:
    Term)
    requires
        plain(names, e),
        names.expr(e) is Ok,
    ensures
        phrase(names.expr(e)->Ok_0, t),
        forall|scope: Scope| #[trigger]
            t.value(n, scope) == explicit_value(names, e, n, scope),
    decreases e,
{
    match e.kind {
        TypedExprKind::Ident(x) => ident_read(names, x@),
        TypedExprKind::Lit(l) => literal_read(l),
        TypedExprKind::BinOp { op, lhs, rhs } => {
            let l = kernel_expressions_keep_their_meaning(names, *lhs, n);
            let r = kernel_expressions_keep_their_meaning(names, *rhs, n);
            let a = names.expr(*lhs)->Ok_0;
            let b = names.expr(*rhs)->Ok_0;
            reveal_strlit("fmax");
            reveal_strlit("fmin");
            reveal_strlit("pow");
            assert("pow"@.len() != "fmax"@.len() && "pow"@.len() != "fmin"@.len());
            let t = if op is Pow {
                two_read("pow"@, a, l, b, r, n)
            } else {
                infix_read(op, a, l, b, r, n)
            };
            assert forall|scope: Scope| #[trigger]
                t.value(n, scope) == explicit_value(names, e, n, scope) by {
                assert(l.value(n, scope) == explicit_value(names, *lhs, n, scope));
                assert(r.value(n, scope) == explicit_value(names, *rhs, n, scope));
            }
            t
        },
        TypedExprKind::Unary { op, operand } => {
            let l = kernel_expressions_keep_their_meaning(names, *operand, n);
            let t = signed_read(op, names.expr(*operand)->Ok_0, l);
            assert forall|scope: Scope| #[trigger]
                t.value(n, scope) == explicit_value(names, e, n, scope) by {
                assert(l.value(n, scope) == explicit_value(names, *operand, n, scope));
            }
            t
        },
        TypedExprKind::Index { base, indices } => {
            let i = indices@[0];
            indexed(names, e);
            let k = kernel_expressions_keep_their_meaning(names, i, n);
            let t = match base.kind {
                TypedExprKind::Ident(x) => element_read(x@, names.expr(i)->Ok_0, k),
                TypedExprKind::FieldAccess { base: of, field } => extent_read(
                    of.kind->Ident_0@,
                    field@,
                    names.expr(i)->Ok_0,
                    k,
                ),
                _ => k,
            };
            assert forall|scope: Scope| #[trigger]
                t.value(n, scope) == explicit_value(names, e, n, scope) by {
                assert(k.value(n, scope) == explicit_value(names, i, n, scope));
            }
            t
        },
        TypedExprKind::FieldAccess { base, field } => rank_read(base.kind->Ident_0@),
        TypedExprKind::Call { callee, args } => {
            if intrinsic_named(callee@) is Some {
                intrinsic_read(callee@)
            } else {
                functions_apart(callee@);
                applied(names, e);
                let h = kernel_expressions_keep_their_meaning(names, args@[0], n);
                let a = names.expr(args@[0])->Ok_0;
                if is_one(callee@) {
                    let t = if callee@ == "relu"@ {
                        reading_laws::phrase_passage(a, h);
                        kernel_laws::rectifier_read(a, h)
                    } else if callee@ == "sigmoid"@ {
                        logistic_phrase(a, h)
                    } else {
                        one_read(callee@, a, h, n)
                    };
                    assert forall|scope: Scope| #[trigger]
                        t.value(n, scope) == explicit_value(names, e, n, scope) by {
                        reveal_strlit("relu");
                        reveal_strlit("sigmoid");
                        reveal_strlit("rsqrt");
                        assert("relu"@.len() != "rsqrt"@.len());
                        assert("sigmoid"@.len() != "rsqrt"@.len());
                        assert(h.value(n, scope) == explicit_value(names, args@[0], n, scope));
                    }
                    t
                } else {
                    let k = kernel_expressions_keep_their_meaning(names, args@[1], n);
                    let t = two_read(callee@, a, h, names.expr(args@[1])->Ok_0, k, n);
                    assert forall|scope: Scope| #[trigger]
                        t.value(n, scope) == explicit_value(names, e, n, scope) by {
                        assert(h.value(n, scope) == explicit_value(names, args@[0], n, scope));
                        assert(k.value(n, scope) == explicit_value(names, args@[1], n, scope));
                    }
                    t
                }
            }
        },
        _ => Term::Name(Seq::empty()),
    }
}

proof fn logistic_phrase(a: Seq<char>, h: Term) -> (t: Term)
    requires
        phrase(a, h),
    ensures
        phrase("(1.0f / (1.0f + exp(-"@ + a + ")))"@, t),
        forall|n: Numbers, scope: Scope| #[trigger]
            t.value(n, scope) == match h.value(n, scope) {
                Some(v) => kernel_laws::function_value("sigmoid"@, n, v),
                None => None,
            },
{
    reveal_strlit("(1.0f / (1.0f + exp(-");
    reveal_strlit("1.0f / (1.0f + exp(-");
    reveal_strlit(")))");
    reveal_strlit("))");
    let t = kernel_laws::logistic_read(a, h);
    let inner = "1.0f / (1.0f + exp(-"@ + a + "))"@;
    reading_laws::bracket_phrase(inner, t);
    let head = "(1.0f / (1.0f + exp(-"@;
    assert(head == seq!['('] + "1.0f / (1.0f + exp(-"@) by {
        reveal_with_fuel(text::same_from, 24);
        text::same_texts(head, seq!['('] + "1.0f / (1.0f + exp(-"@, 0);
    }
    assert(")))"@ =~= "))"@ + seq![')']);
    assert(head + a + ")))"@ =~= seq!['('] + inner + seq![')']);
    t
}

/// An element at one index is written as such.
proof fn indexed(names: Names, e: TypedExpr)
    requires
        plain(names, e),
        e.kind is Index,
        names.expr(e) is Ok,
    ensures
        ({
            let base = *e.kind->Index_base;
            let i = e.kind->indices@[0];
            &&& names.expr(i) is Ok
            &&& match base.kind {
                TypedExprKind::Ident(x) => names.expr(e)->Ok_0 == x@ + "["@ + names.expr(i)->Ok_0
                    + "]"@,
                TypedExprKind::FieldAccess { base: of, field } => names.expr(e)->Ok_0 == "(int)"@
                    + of.kind->Ident_0@ + "_meta."@ + field@ + "["@ + names.expr(i)->Ok_0 + "]"@,
                _ => false,
            }
        }),
{
    let base = *e.kind->Index_base;
    match base.kind {
        TypedExprKind::Ident(x) => {
            assert(names.expr(e) == names.element(e));
            assert(names.expr(base) == Ok::<Seq<char>, Fail>(x@));
        },
        _ => {},
    }
}

/// A function is written with its arguments.
proof fn applied(names: Names, e: TypedExpr)
    requires
        plain(names, e),
        e.kind is Call,
        is_one(e.kind->Call_callee@) || is_two(e.kind->Call_callee@),
        names.expr(e) is Ok,
    ensures
        ({
            let f = e.kind->Call_callee@;
            let args = e.kind->Call_args@;
            let a = names.expr(args[0]);
            &&& a is Ok
            &&& is_two(f) ==> names.expr(args[1]) is Ok
            &&& names.expr(e)->Ok_0 == if f == "relu"@ {
                "fmax(0.0f, "@ + a->Ok_0 + ")"@
            } else if f == "sigmoid"@ {
                "(1.0f / (1.0f + exp(-"@ + a->Ok_0 + ")))"@
            } else if is_one(f) {
                explicit::math_fn(f)->0 + "("@ + a->Ok_0 + ")"@
            } else {
                explicit::math_fn(f)->0 + "("@ + (a->Ok_0 + ", "@ + names.expr(args[1])->Ok_0)
                    + ")"@
            }
        }),
{
    let f = e.kind->Call_callee@;
    let args = e.kind->Call_args@;
    functions_apart(f);
    if f != "relu"@ && f != "sigmoid"@ {
        reveal_with_fuel(Names::exprs, 4);
        reveal_with_fuel(text::joined, 3);
        assert(names.exprs(args, 0, Seq::empty()) is Ok);
        let a = names.expr(args[0])->Ok_0;
        if args.len() == 1 {
            let parts = Seq::<Seq<char>>::empty().push(a);
            assert(names.exprs(args, 0, Seq::empty()) == Ok::<Seq<Seq<char>>, Fail>(parts));
            assert(text::joined(parts, ", "@, 1) == a);
        } else {
            let b = names.expr(args[1])->Ok_0;
            let parts = Seq::<Seq<char>>::empty().push(a).push(b);
            assert(names.exprs(args, 0, Seq::empty()) == Ok::<Seq<Seq<char>>, Fail>(parts));
            assert(text::joined(parts, ", "@, 1) == a);
            assert(text::joined(parts, ", "@, 2) == a + ", "@ + b);
        }
    }
}

} // verus!
