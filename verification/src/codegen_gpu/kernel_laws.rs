//! That kernels compute what the operations they are made for mean: their
//! sources are read by the grammar of the kernel language and run.

use crate::codegen_gpu::builtins;
use crate::codegen_gpu::error::Fail;
use crate::codegen_gpu::reading;
use crate::codegen_gpu::reading::{at, Infix, Scope, Term};
use crate::codegen_gpu::reading_laws;
use crate::codegen_gpu::reading_laws::{
    at_char, is_name, passage, phrase, spells,
};
use crate::numbers::Numbers;
use crate::text;
use crate::typed::BinOp;
use vstd::prelude::*;

verus! {

/// The spelling of an operator is read as an operator with the same meaning on
/// all numbers.
pub proof fn operators_are_read_back(op: BinOp, n: Numbers) -> (infix: Infix)
    requires
        op.msl() is Ok,
    ensures
        spells(op.msl()->Ok_0, infix),
        forall|a: int, b: int| op.on(n, a, b) == Some(#[trigger] infix.on(n, a, b)),
{
    reveal_strlit("+");
    reveal_strlit("-");
    reveal_strlit("*");
    reveal_strlit("/");
    reveal_strlit("==");
    reveal_strlit("!=");
    reveal_strlit("<");
    reveal_strlit("<=");
    reveal_strlit(">");
    reveal_strlit(">=");
    reveal_strlit("&&");
    reveal_strlit("||");
    let infix = match op {
        BinOp::Add => Infix::Plus,
        BinOp::Sub => Infix::Minus,
        BinOp::Mul => Infix::Times,
        BinOp::Div => Infix::Over,
        BinOp::Eq => Infix::Equal,
        BinOp::NotEq => Infix::Unequal,
        BinOp::Lt => Infix::Below,
        BinOp::LtEq => Infix::AtMost,
        BinOp::Gt => Infix::Above,
        BinOp::GtEq => Infix::AtLeast,
        BinOp::And => Infix::Both,
        _ => Infix::Either,
    };
    let o = op.msl()->Ok_0;
    assert forall|s: Seq<char>, i: nat|
        #![trigger at(s, i, o)]
        at(s, i, o) && i + o.len() < s.len() && s[(i + o.len()) as int]
            == ' ' implies reading::operator(s, i) == Some((infix, i + o.len())) by {
        at_char(s, i, o, 0);
        if o.len() > 1 {
            at_char(s, i, o, 1);
        }
    }
    infix
}

/// An operator between two names, written in the kernel language, means there
/// what it means in the program, for all numbers. Operators without a spelling
/// are the power and the product of matrices.
pub proof fn operators_keep_their_meaning(
    op: BinOp,
    a: Seq<char>,
    b: Seq<char>,
    n: Numbers,
    scope: Scope,
)
    requires
        is_name(a),
        is_name(b),
        a != "true"@ && a != "false"@,
        b != "true"@ && b != "false"@,
    ensures
        match op.msl() {
            Ok(o) => {
                let t = reading::read(a + " "@ + o + " "@ + b);
                &&& t is Some
                &&& t->0.value(n, scope) == op.on(n, (scope.value)(a), (scope.value)(b))
            },
            Err(_) => op is Pow || op is Matmul,
        },
{
    reveal_strlit("true");
    reveal_strlit("false");
    reveal_strlit(" ");
    assert("true"@ =~= seq!['t', 'r', 'u', 'e']);
    assert("false"@ =~= seq!['f', 'a', 'l', 's', 'e']);
    assert(" "@ =~= seq![' ']);
    if op.msl() is Ok {
        let infix = operators_are_read_back(op, n);
        reading_laws::name_phrase(a);
        reading_laws::name_phrase(b);
        reading_laws::infix_passage(
            a,
            Term::Name(a),
            op.msl()->Ok_0,
            infix,
            b,
            Term::Name(b),
        );
        let t = a + " "@ + op.msl()->Ok_0 + " "@ + b;
        reading_laws::passage_read(
            t,
            Term::Infix(infix, Box::new(Term::Name(a)), Box::new(Term::Name(b))),
        );
        let x = (scope.value)(a);
        let y = (scope.value)(b);
        assert(op.on(n, x, y) == Some(infix.on(n, x, y)));
        reveal_with_fuel(Term::value, 2);
    }
}

/// Different operators have different spellings.
pub proof fn operators_have_spellings_of_their_own(x: BinOp, y: BinOp)
    requires
        x.msl() is Ok,
        x.msl() == y.msl(),
    ensures
        x == y,
{
    reveal_strlit("+");
    reveal_strlit("-");
    reveal_strlit("*");
    reveal_strlit("/");
    reveal_strlit("==");
    reveal_strlit("!=");
    reveal_strlit("<");
    reveal_strlit("<=");
    reveal_strlit(">");
    reveal_strlit(">=");
    reveal_strlit("&&");
    reveal_strlit("||");
    let s = x.msl()->Ok_0;
    let t = y.msl()->Ok_0;
    assert(s.len() == t.len());
    assert(s[0] == t[0]);
    if s.len() > 1 {
        assert(s[1] == t[1]);
    }
}

/// What the functions of the language on single numbers mean.
pub open spec fn function_value(name: Seq<char>, n: Numbers, x: int) -> Option<int> {
    if name == "relu"@ {
        Some(n.larger(n.zero(), x))
    } else if name == "sigmoid"@ {
        Some(n.logistic(x))
    } else if name == "tanh"@ {
        Some((n.tanh)(x))
    } else if name == "exp"@ {
        Some((n.exp)(x))
    } else if name == "log"@ {
        Some((n.log)(x))
    } else if name == "sqrt"@ {
        Some((n.sqrt)(x))
    } else if name == "abs"@ {
        Some(n.magnitude(x))
    } else {
        None
    }
}

/// The rectifier keeps positive numbers, gives zero for all others, and so is
/// never below zero.
pub proof fn rectified_numbers_are_not_negative(n: Numbers, x: int)
    requires
        !(n.less)(n.zero(), n.zero()),
        forall|a: int, b: int| (n.less)(a, b) ==> !(#[trigger] (n.less)(b, a)),
    ensures
        function_value("relu"@, n, x) == Some(
            if (n.less)(n.zero(), x) {
                x
            } else {
                n.zero()
            },
        ),
        !(n.less)(function_value("relu"@, n, x)->0, n.zero()),
{
    if (n.less)(n.zero(), x) {
        assert(!(n.less)(x, n.zero()));
    }
}

/// The element of an array at the position of the thread.
pub open spec fn here(x: Seq<char>) -> Term {
    Term::Element(Box::new(Term::Name(x)), Box::new(Term::Name("tid"@)))
}

/// The element of an array at the position of the thread is read as such.
pub proof fn here_phrase(x: Seq<char>)
    requires
        is_name(x),
    ensures
        phrase(x + "[tid]"@, here(x)),
        forall|n: Numbers, scope: Scope| #[trigger]
            here(x).value(n, scope) == Some((scope.element)(x, (scope.value)("tid"@))),
{
    reveal_strlit("[tid]");
    reveal_strlit("tid");
    let tid = seq!['t', 'i', 'd'];
    assert("tid"@ =~= tid);
    reading_laws::name_phrase(tid);
    reading_laws::phrase_passage(tid, Term::Name(tid));
    reading_laws::element_phrase(x, tid, Term::Name(tid));
    assert(x + "[tid]"@ =~= x + seq!['['] + tid + seq![']']);
    reveal_with_fuel(Term::value, 3);
}

/// The formula of a function, as a term.
proof fn formula_read(name: Seq<char>) -> (t: Term)
    requires
        builtins::unary_formula(name) is Some,
    ensures
        passage(builtins::unary_formula(name)->0, t),
        forall|n: Numbers, scope: Scope| #[trigger]
            t.value(n, scope) == function_value(
                name,
                n,
                (scope.element)("a"@, (scope.value)("tid"@)),
            ),
{
    reveal_strlit("relu");
    reveal_strlit("sigmoid");
    reveal_strlit("tanh");
    reveal_strlit("exp");
    reveal_strlit("log");
    reveal_strlit("sqrt");
    reveal_strlit("abs");
    reveal_strlit("a");
    reveal_strlit("[tid]");
    let a = "a"@;
    assert(a =~= seq!['a']);
    here_phrase(a);
    let x = a + "[tid]"@;
    let h = here(a);
    reading_laws::phrase_passage(x, h);
    if name == "relu"@ {
        rectifier_read(x, h)
    } else if name == "sigmoid"@ {
        logistic_read(x, h)
    } else {
        let f = if name == "tanh"@ {
            seq!['t', 'a', 'n', 'h']
        } else if name == "exp"@ {
            seq!['e', 'x', 'p']
        } else if name == "log"@ {
            seq!['l', 'o', 'g']
        } else if name == "sqrt"@ {
            seq!['s', 'q', 'r', 't']
        } else {
            seq!['f', 'a', 'b', 's']
        };
        reading_laws::call_phrase(f, x, h);
        let t = Term::Apply(f, seq![h]);
        let u = f + seq!['('] + x + seq![')'];
        reading_laws::phrase_passage(u, t);
        reveal_strlit("tanh(a[tid])");
        reveal_strlit("exp(a[tid])");
        reveal_strlit("log(a[tid])");
        reveal_strlit("sqrt(a[tid])");
        reveal_strlit("fabs(a[tid])");
        let w = builtins::unary_formula(name)->0;
        assert(w == u) by {
            reveal_with_fuel(text::same_from, 14);
            text::same_texts(w, u, 0);
        }
        assert forall|n: Numbers, scope: Scope| #[trigger]
            t.value(n, scope) == function_value(
            name,
            n,
            (scope.element)("a"@, (scope.value)("tid"@)),
        ) by {
            one_value(h, n, scope);
        }
        t
    }
}

/// The values of one term.
pub proof fn one_value(h: Term, n: Numbers, scope: Scope)
    ensures
        reading::values(seq![h], 1, n, scope) == match h.value(n, scope) {
            Some(x) => Some(seq![x]),
            None => None,
        },
{
    reveal_with_fuel(reading::values, 2);
    match h.value(n, scope) {
        Some(x) => {
            assert(Seq::<int>::empty().push(x) =~= seq![x]);
        },
        None => {},
    }
}

/// The values of two terms.
pub proof fn two_values(h: Term, k: Term, n: Numbers, scope: Scope)
    ensures
        reading::values(seq![h, k], 2, n, scope) == match (h.value(n, scope), k.value(n, scope)) {
            (Some(x), Some(y)) => Some(seq![x, y]),
            _ => None,
        },
{
    reveal_with_fuel(reading::values, 3);
    match (h.value(n, scope), k.value(n, scope)) {
        (Some(x), Some(y)) => {
            assert(Seq::<int>::empty().push(x).push(y) =~= seq![x, y]);
        },
        _ => {},
    }
}

/// The larger of zero and a term.
pub open spec fn rectifier(h: Term) -> Term {
    Term::Apply(seq!['f', 'm', 'a', 'x'], seq![Term::Decimal("0.0"@), h])
}

pub proof fn rectifier_read(x: Seq<char>, h: Term) -> (t: Term)
    requires
        passage(x, h),
    ensures
        passage("fmax(0.0f, "@ + x + ")"@, t),
        phrase("fmax(0.0f, "@ + x + ")"@, t),
        x == "a[tid]"@ ==> "fmax(0.0f, a[tid])"@ == "fmax(0.0f, "@ + x + ")"@,
        x == "a"@ + "[tid]"@ ==> "fmax(0.0f, a[tid])"@ == "fmax(0.0f, "@ + x + ")"@,
        forall|n: Numbers, scope: Scope| #[trigger]
            t.value(n, scope) == match h.value(n, scope) {
                Some(v) => function_value("relu"@, n, v),
                None => None,
            },
{
    reveal_strlit("fmax(0.0f, ");
    reveal_strlit(")");
    reveal_strlit("0.0");
    reveal_strlit("a");
    reveal_strlit("[tid]");
    reveal_strlit("a[tid]");
    reveal_strlit("fmax(0.0f, a[tid])");
    let zero = seq!['0', '.', '0'];
    assert("0.0"@ =~= zero);
    assert(reading::is_number(zero)) by {
        assert(reading::number_goes_on(zero, 0));
    }
    reading_laws::decimal_phrase(zero);
    let z = zero + seq!['f'];
    reading_laws::phrase_passage(z, Term::Decimal(zero));
    let f = seq!['f', 'm', 'a', 'x'];
    reading_laws::call2_phrase(f, z, Term::Decimal(zero), x, h);
    let t = rectifier(h);
    let u = f + seq!['('] + z + seq![',', ' '] + x + seq![')'];
    assert(u =~= "fmax(0.0f, "@ + x + ")"@) by {
        let p = f + seq!['('] + z + seq![',', ' '];
        reveal_with_fuel(text::same_from, 14);
        text::same_texts(p, "fmax(0.0f, "@, 0);
        assert(")"@ =~= seq![')']);
    }
    reading_laws::phrase_passage(u, t);
    if x == "a[tid]"@ || x == "a"@ + "[tid]"@ {
        reveal_with_fuel(text::same_from, 20);
        text::same_texts("fmax(0.0f, a[tid])"@, "fmax(0.0f, "@ + x + ")"@, 0);
    }
    assert forall|n: Numbers, scope: Scope| #[trigger]
        t.value(n, scope) == match h.value(n, scope) {
        Some(v) => function_value("relu"@, n, v),
        None => None,
    } by {
        two_values(Term::Decimal(zero), h, n, scope);
    }
    t
}

pub proof fn logistic_read(x: Seq<char>, h: Term) -> (t: Term)
    requires
        phrase(x, h),
    ensures
        passage("1.0f / (1.0f + exp(-"@ + x + "))"@, t),
        x == "a"@ + "[tid]"@ ==> "1.0f / (1.0f + exp(-a[tid]))"@ == "1.0f / (1.0f + exp(-"@ + x
            + "))"@,
        forall|n: Numbers, scope: Scope| #[trigger]
            t.value(n, scope) == match h.value(n, scope) {
                Some(v) => function_value("sigmoid"@, n, v),
                None => None,
            },
{
    reveal_strlit("relu");
    reveal_strlit("sigmoid");
    reveal_strlit("1.0f / (1.0f + exp(-");
    reveal_strlit("))");
    reveal_strlit("1.0");
    reveal_strlit("a");
    reveal_strlit("[tid]");
    reveal_strlit("1.0f / (1.0f + exp(-a[tid]))");
    let one = seq!['1', '.', '0'];
    assert("1.0"@ =~= one);
    assert(reading::is_number(one)) by {
        assert(reading::number_goes_on(one, 0));
    }
    reading_laws::decimal_phrase(one);
    let z = one + seq!['f'];
    let w = Term::Decimal(one);
    reading_laws::sign_passage(x, h);
    let neg = Term::Negative(Box::new(h));
    let f = seq!['e', 'x', 'p'];
    let signed = seq!['-'] + x;
    reading_laws::call_phrase(f, signed, neg);
    let call = f + seq!['('] + signed + seq![')'];
    let power = Term::Apply(f, seq![neg]);
    assert(reading_laws::spells(seq!['+'], Infix::Plus)) by {
        sign_spelled('+', Infix::Plus);
    }
    reading_laws::infix_passage(z, w, seq!['+'], Infix::Plus, call, power);
    let below = z + seq![' '] + seq!['+'] + seq![' '] + call;
    let total = Term::Infix(Infix::Plus, Box::new(w), Box::new(power));
    reading_laws::bracket_phrase(below, total);
    let bracket = seq!['('] + below + seq![')'];
    assert(reading_laws::spells(seq!['/'], Infix::Over)) by {
        sign_spelled('/', Infix::Over);
    }
    reading_laws::infix_passage(z, w, seq!['/'], Infix::Over, bracket, total);
    let u = z + seq![' '] + seq!['/'] + seq![' '] + bracket;
    let t = Term::Infix(Infix::Over, Box::new(w), Box::new(total));
    assert(u =~= "1.0f / (1.0f + exp(-"@ + x + "))"@) by {
        let p = z + seq![' ', '/', ' ', '('] + z + seq![' ', '+', ' '] + f + seq!['(', '-'];
        reveal_with_fuel(text::same_from, 24);
        text::same_texts(p, "1.0f / (1.0f + exp(-"@, 0);
        assert("))"@ =~= seq![')', ')']);
        assert(u =~= p + x + seq![')', ')']);
    }
    if x == "a"@ + "[tid]"@ {
        reveal_with_fuel(text::same_from, 30);
        text::same_texts(
            "1.0f / (1.0f + exp(-a[tid]))"@,
            "1.0f / (1.0f + exp(-"@ + x + "))"@,
            0,
        );
    }
    assert forall|n: Numbers, scope: Scope| #[trigger]
        t.value(n, scope) == match h.value(n, scope) {
        Some(v) => function_value("sigmoid"@, n, v),
        None => None,
    } by {
        one_value(neg, n, scope);
        reveal_with_fuel(Term::value, 3);
        assert(power.value(n, scope) == match h.value(n, scope) {
            Some(v) => Some((n.exp)((n.negative)(v))),
            None => None,
        });
        assert(w.value(n, scope) == Some(n.one()));
        assert("relu"@.len() != "sigmoid"@.len());
    }
    t
}

proof fn sign_spelled(c: char, op: Infix)
    requires
        (c == '+' && op is Plus) || (c == '/' && op is Over),
    ensures
        spells(seq![c], op),
{
    assert forall|s: Seq<char>, i: nat|
        #![trigger at(s, i, seq![c])]
        at(s, i, seq![c]) && i + 1 < s.len() && s[(i + 1) as int] == ' ' implies reading::operator(
        s,
        i,
    ) == Some((op, i + 1)) by {
        at_char(s, i, seq![c], 0);
    }
}

/// The kernel of a function applies that function to every element of its
/// operand: it reads the first buffer and writes the second, and the output at
/// the position of a thread is the value of the function at the operand there.
#[verifier::spinoff_prover]
#[verifier::rlimit(60)]
pub proof fn unary_kernels_apply_their_function(
    name: Seq<char>,
    id: u64,
    n: Numbers,
    scope: Scope,
)
    ensures
        ({
            let p = (scope.value)("tid"@);
            match function_value(name, n, (scope.element)("a"@, p)) {
                Some(y) => {
                    &&& builtins::unary_source(name, id) is Ok
                    &&& ({
                        let s = builtins::unary_source(name, id)->Ok_0;
                        &&& reading::declares(s, "a"@, 0)
                        &&& reading::declares(s, "out"@, 1)
                        &&& reading::declares_position(s, "tid"@)
                        &&& reading::outputs(s, n, scope, seq![(p, y)])
                    })
                },
                None => builtins::unary_source(name, id) is Err,
            }
        }),
{
    let p = (scope.value)("tid"@);
    let y = function_value(name, n, (scope.element)("a"@, p));
    if y is Some {
        let t = formula_read(name);
        let f = builtins::unary_formula(name)->0;
        let a =
            "#include <metal_stdlib>\nusing namespace metal;\n\nkernel void malus_kernel_"@;
        let b = text::decimal(id as nat);
        let c =
            "(\n    device float* a [[buffer(0)]],\n    device float* out [[buffer(1)]],\n    uint tid [[thread_position_in_grid]]\n) {\n    out[tid] = "@;
        let d = ";\n}\n"@;
        let s = a + b + c + f + d;
        assert(builtins::unary_source(name, id) == Ok::<Seq<char>, Fail>(s));
        let i = (a + b).len();
        reading_laws::parts_stand(a, b, c, f, d);
        unary_head(s, i);
        let e = i + c.len();
        assert(c.len() == 134) by {
            reveal_strlit(
                "(\n    device float* a [[buffer(0)]],\n    device float* out [[buffer(1)]],\n    uint tid [[thread_position_in_grid]]\n) {\n    out[tid] = ",
            );
        }
        body_read(s, e, f, t, n, scope);
    }
}

proof fn unary_head(s: Seq<char>, i: nat)
    requires
        at(
            s,
            i,
            "(\n    device float* a [[buffer(0)]],\n    device float* out [[buffer(1)]],\n    uint tid [[thread_position_in_grid]]\n) {\n    out[tid] = "@,
        ),
    ensures
        reading::declares(s, "a"@, 0),
        reading::declares(s, "out"@, 1),
        reading::declares_position(s, "tid"@),
        at(s, i + 114, "\n) {\n    out[tid] = "@),
{
    let c =
        "(\n    device float* a [[buffer(0)]],\n    device float* out [[buffer(1)]],\n    uint tid [[thread_position_in_grid]]\n) {\n    out[tid] = "@;
    reveal_strlit(
        "(\n    device float* a [[buffer(0)]],\n    device float* out [[buffer(1)]],\n    uint tid [[thread_position_in_grid]]\n) {\n    out[tid] = ",
    );
    literals();
    reveal_strlit("uint tid [[thread_position_in_grid]]");
    reveal_with_fuel(reading_laws::inside_from, 40);
    declared(s, i, c, 18, "a"@, 0);
    declared(s, i, c, 53, "out"@, 1);
    positioned(s, i, c, 78);
    reveal_strlit("\n) {\n    out[tid] = ");
    reading_laws::at_inside(s, i, c, 114, "\n) {\n    out[tid] = "@);
}

proof fn literals()
    ensures
        "a"@ =~= seq!['a'],
        "b"@ =~= seq!['b'],
        "out"@ =~= seq!['o', 'u', 't'],
        "tid"@ =~= seq!['t', 'i', 'd'],
        "scalar_val"@ =~= seq!['s', 'c', 'a', 'l', 'a', 'r', '_', 'v', 'a', 'l'],
        text::decimal(0) =~= seq!['0'],
        text::decimal(1) =~= seq!['1'],
        text::decimal(2) =~= seq!['2'],
{
    reveal_strlit("a");
    reveal_strlit("b");
    reveal_strlit("out");
    reveal_strlit("tid");
    reveal_strlit("scalar_val");
    reveal_with_fuel(text::same_from, 12);
    text::same_texts(
        "scalar_val"@,
        seq!['s', 'c', 'a', 'l', 'a', 'r', '_', 'v', 'a', 'l'],
        0,
    );
}

proof fn declared(s: Seq<char>, i: nat, c: Seq<char>, k: nat, name: Seq<char>, buffer: nat)
    requires
        at(s, i, c),
        buffer < 10,
        0 < name.len(),
        reading_laws::inside_from(
            c,
            k,
            seq!['*', ' '] + name + seq![
                ' ',
                '[',
                '[',
                'b',
                'u',
                'f',
                'f',
                'e',
                'r',
                '(',
                text::digit(buffer as int),
                ')',
                ']',
                ']',
            ],
            0,
        ),
    ensures
        reading::declares(s, name, buffer),
{
    reveal_strlit("* ");
    reveal_strlit(" [[buffer(");
    reveal_strlit(")]]");
    let u = "* "@ + name + " [[buffer("@ + text::decimal(buffer) + ")]]"@;
    let tail = seq![
        ' ',
        '[',
        '[',
        'b',
        'u',
        'f',
        'f',
        'e',
        'r',
        '(',
        text::digit(buffer as int),
        ')',
        ']',
        ']',
    ];
    assert(" [[buffer("@ + text::decimal(buffer) + ")]]"@ == tail) by {
        reveal_with_fuel(text::same_from, 16);
        text::same_texts(
            " [[buffer("@ + text::decimal(buffer) + ")]]"@,
            tail,
            0,
        );
    }
    assert("* "@ =~= seq!['*', ' ']);
    assert(u =~= seq!['*', ' '] + name + tail);
    reading_laws::at_inside(s, i, c, k, u);
}

proof fn positioned(s: Seq<char>, i: nat, c: Seq<char>, k: nat)
    requires
        at(s, i, c),
        reading_laws::inside_from(c, k, "uint tid [[thread_position_in_grid]]"@, 0),
    ensures
        reading::declares_position(s, "tid"@),
{
    let u = "uint tid [[thread_position_in_grid]]"@;
    reveal_strlit("uint tid [[thread_position_in_grid]]");
    reveal_strlit("uint ");
    reveal_strlit("tid");
    reveal_strlit(" [[thread_position_in_grid]]");
    let w = "uint "@ + "tid"@ + " [[thread_position_in_grid]]"@;
    reveal_with_fuel(text::same_from, 40);
    text::same_texts(u, w, 0);
    reading_laws::at_inside(s, i, c, k, u);
}

/// The body of a kernel that writes one element.
proof fn body_read(s: Seq<char>, e: nat, f: Seq<char>, t: Term, n: Numbers, scope: Scope)
    requires
        e >= 20,
        at(s, (e - 20) as nat, "\n) {\n    out[tid] = "@),
        at(s, e, f),
        at(s, e + f.len(), ";\n}\n"@),
        passage(f, t),
        t.value(n, scope) is Some,
    ensures
        reading::outputs(
            s,
            n,
            scope,
            seq![((scope.value)("tid"@), t.value(n, scope)->0)],
        ),
{
    let lead = "\n) {\n    out[tid] = "@;
    let q = (e - 20) as nat;
    reveal_strlit("\n) {\n    out[tid] = ");
    reveal_strlit("\n) {\n");
    reveal_strlit("out[tid] = ");
    reveal_strlit(";\n}\n");
    reveal_strlit(";");
    reveal_strlit("\n}");
    assert(at(s, q, "\n) {\n"@) && at(s, q + 9, "out[tid] = "@) && at(s, e + f.len(), ";"@) && at(
        s,
        e + f.len() + 1,
        "\n}"@,
    )) by {
        reveal_with_fuel(reading_laws::inside_from, 14);
        reading_laws::at_inside(s, q, lead, 0, "\n) {\n"@);
        reading_laws::at_inside(s, q, lead, 9, "out[tid] = "@);
        reading_laws::at_inside(s, e + f.len(), ";\n}\n"@, 0, ";"@);
        reading_laws::at_inside(s, e + f.len(), ";\n}\n"@, 1, "\n}"@);
    }
    assert(reading::behind_space(s, q + 5) == q + 9) by {
        at_char(s, q, lead, 5);
        at_char(s, q, lead, 6);
        at_char(s, q, lead, 7);
        at_char(s, q, lead, 8);
        at_char(s, q, lead, 9);
        reveal_with_fuel(reading::behind_space, 6);
    }
    reading_laws::at_together(s, q + 9, "out[tid] = "@, f);
    reading_laws::at_together(s, q + 9, "out[tid] = "@ + f, ";"@);
    reading_laws::write_read(s, q + 5, q + 9, f, t, n, scope);
    reading_laws::end_read(s, e + f.len() + 1, n, scope);
    let y = t.value(n, scope)->0;
    let one = seq![((scope.value)("tid"@), y)];
    assert(one + Seq::<(int, int)>::empty() =~= one);
}

/// The kernel of an operator applies it to the elements of two arrays: it reads
/// the first two buffers and writes the third, and the output at the position
/// of a thread is what the operator gives on the elements there, the first
/// array's on the left.
#[verifier::spinoff_prover]
#[verifier::rlimit(60)]
pub proof fn elementwise_kernels_apply_their_operator(
    op: BinOp,
    id: u64,
    n: Numbers,
    scope: Scope,
)
    requires
        !(op is Pow),
    ensures
        ({
            let p = (scope.value)("tid"@);
            match op.on(n, (scope.element)("a"@, p), (scope.element)("b"@, p)) {
                Some(y) => {
                    &&& builtins::elementwise_source(op, id) is Ok
                    &&& ({
                        let s = builtins::elementwise_source(op, id)->Ok_0;
                        &&& reading::declares(s, "a"@, 0)
                        &&& reading::declares(s, "b"@, 1)
                        &&& reading::declares(s, "out"@, 2)
                        &&& reading::declares_position(s, "tid"@)
                        &&& reading::outputs(s, n, scope, seq![(p, y)])
                    })
                },
                None => builtins::elementwise_source(op, id) is Err,
            }
        }),
{
    if !(op is Matmul) {
        let p = (scope.value)("tid"@);
        let x = (scope.element)("a"@, p);
        let y = (scope.element)("b"@, p);
        let o = op.msl()->Ok_0;
        let infix = operators_are_read_back(op, n);
        assert(op.on(n, x, y) == Some(infix.on(n, x, y)));
        literals();
        here_phrase("a"@);
        here_phrase("b"@);
        let l = "a"@ + "[tid]"@;
        let r = "b"@ + "[tid]"@;
        let t = Term::Infix(infix, Box::new(here("a"@)), Box::new(here("b"@)));
        reading_laws::infix_passage(l, here("a"@), o, infix, r, here("b"@));
        let inner = l + seq![' '] + o + seq![' '] + r;
        reading_laws::bracket_phrase(inner, t);
        let f = seq!['('] + inner + seq![')'];
        reading_laws::phrase_passage(f, t);
        let a =
            "#include <metal_stdlib>\nusing namespace metal;\n\nkernel void malus_kernel_"@;
        let b = text::decimal(id as nat);
        let c =
            "(\n    device float* a [[buffer(0)]],\n    device float* b [[buffer(1)]],\n    device float* out [[buffer(2)]],\n    uint tid [[thread_position_in_grid]]\n) {\n    out[tid] = (a[tid] "@;
        let s = a + b + c + o + " b[tid]);\n}\n"@;
        assert(builtins::elementwise_source(op, id) == Ok::<Seq<char>, Fail>(s));
        let i = (a + b).len();
        reading_laws::parts_stand(a, b, c, o, " b[tid]);\n}\n"@);
        elementwise_head(s, i);
        assert(c.len() == 177) by {
            reveal_strlit(
                "(\n    device float* a [[buffer(0)]],\n    device float* b [[buffer(1)]],\n    device float* out [[buffer(2)]],\n    uint tid [[thread_position_in_grid]]\n) {\n    out[tid] = (a[tid] ",
            );
        }
        reading_laws::infix_value(infix, here("a"@), here("b"@), n, scope);
        let e = i + 169;
        elementwise_body(s, i, o, f);
        body_read(s, e, f, t, n, scope);
    }
}

proof fn elementwise_body(s: Seq<char>, i: nat, o: Seq<char>, f: Seq<char>)
    requires
        at(
            s,
            i,
            "(\n    device float* a [[buffer(0)]],\n    device float* b [[buffer(1)]],\n    device float* out [[buffer(2)]],\n    uint tid [[thread_position_in_grid]]\n) {\n    out[tid] = (a[tid] "@,
        ),
        at(s, i + 177, o),
        at(s, i + 177 + o.len(), " b[tid]);\n}\n"@),
        f == seq!['('] + ("a"@ + "[tid]"@ + seq![' '] + o + seq![' '] + ("b"@ + "[tid]"@)) + seq![
            ')',
        ],
    ensures
        at(s, i + 169, f),
        at(s, i + 169 + f.len(), ";\n}\n"@),
{
    let c =
        "(\n    device float* a [[buffer(0)]],\n    device float* b [[buffer(1)]],\n    device float* out [[buffer(2)]],\n    uint tid [[thread_position_in_grid]]\n) {\n    out[tid] = (a[tid] "@;
    reveal_strlit(
        "(\n    device float* a [[buffer(0)]],\n    device float* b [[buffer(1)]],\n    device float* out [[buffer(2)]],\n    uint tid [[thread_position_in_grid]]\n) {\n    out[tid] = (a[tid] ",
    );
    reveal_strlit("a");
    reveal_strlit("b");
    reveal_strlit("[tid]");
    reveal_strlit(" b[tid]);\n}\n");
    reveal_strlit(";\n}\n");
    let l = seq!['(', 'a', '[', 't', 'i', 'd', ']', ' '];
    let r = seq![' ', 'b', '[', 't', 'i', 'd', ']', ')'];
    let k = i + 177 + o.len();
    reveal_with_fuel(reading_laws::inside_from, 10);
    reading_laws::at_inside(s, i, c, 169, l);
    reading_laws::at_inside(s, k, " b[tid]);\n}\n"@, 0, r);
    reading_laws::at_inside(s, k, " b[tid]);\n}\n"@, 8, ";\n}\n"@);
    reading_laws::at_together(s, i + 169, l, o);
    reading_laws::at_together(s, i + 169, l + o, r);
    assert(f =~= l + o + r);
}

/// The kernel of an operator on an array and a number applies it to every
/// element: it reads the array from the first buffer and the number from the
/// start of the second, and writes the third. The number stands on the side
/// that the kernel is made for.
#[verifier::spinoff_prover]
#[verifier::rlimit(60)]
pub proof fn scalar_kernels_apply_their_operator(
    op: BinOp,
    right: bool,
    id: u64,
    n: Numbers,
    scope: Scope,
)
    requires
        !(op is Pow),
    ensures
        ({
            let p = (scope.value)("tid"@);
            let x = (scope.element)("a"@, p);
            let c = (scope.element)("scalar_val"@, (n.integer)(0));
            let y = if right {
                op.on(n, x, c)
            } else {
                op.on(n, c, x)
            };
            match y {
                Some(y) => {
                    &&& builtins::scalar_source(op, right, id) is Ok
                    &&& ({
                        let s = builtins::scalar_source(op, right, id)->Ok_0;
                        &&& reading::declares(s, "a"@, 0)
                        &&& reading::declares(s, "scalar_val"@, 1)
                        &&& reading::declares(s, "out"@, 2)
                        &&& reading::declares_position(s, "tid"@)
                        &&& reading::outputs(s, n, scope, seq![(p, y)])
                    })
                },
                None => builtins::scalar_source(op, right, id) is Err,
            }
        }),
{
    if !(op is Matmul) {
        let p = (scope.value)("tid"@);
        let x = (scope.element)("a"@, p);
        let v = (scope.element)("scalar_val"@, (n.integer)(0));
        let o = op.msl()->Ok_0;
        let infix = operators_are_read_back(op, n);
        literals();
        here_phrase("a"@);
        let number = scalar_phrase();
        let l = "a"@ + "[tid]"@;
        let r = "scalar_val"@ + seq!['[', '0', ']'];
        let (lt, lw, rt, rw) = if right {
            (l, here("a"@), r, number)
        } else {
            (r, number, l, here("a"@))
        };
        let (u, w) = if right {
            (x, v)
        } else {
            (v, x)
        };
        assert(op.on(n, u, w) == Some(infix.on(n, u, w)));
        let t = Term::Infix(infix, Box::new(lw), Box::new(rw));
        reading_laws::infix_passage(lt, lw, o, infix, rt, rw);
        let inner = lt + seq![' '] + o + seq![' '] + rt;
        reading_laws::bracket_phrase(inner, t);
        let f = seq!['('] + inner + seq![')'];
        reading_laws::phrase_passage(f, t);
        reading_laws::infix_value(infix, lw, rw, n, scope);
        let g = if right {
            "(a[tid] "@ + o + " scalar_val[0])"@
        } else {
            "(scalar_val[0] "@ + o + " a[tid])"@
        };
        assert(g == f) by {
            scalar_formula(o);
        }
        let a =
            "#include <metal_stdlib>\nusing namespace metal;\n\nkernel void malus_kernel_"@;
        let b = text::decimal(id as nat);
        let c =
            "(\n    device float* a [[buffer(0)]],\n    device float* scalar_val [[buffer(1)]],\n    device float* out [[buffer(2)]],\n    uint tid [[thread_position_in_grid]]\n) {\n    out[tid] = "@;
        let d = ";\n}\n"@;
        let s = a + b + c + f + d;
        assert(builtins::scalar_source(op, right, id) == Ok::<Seq<char>, Fail>(s));
        let i = (a + b).len();
        reading_laws::parts_stand(a, b, c, f, d);
        scalar_head(s, i);
        let e = i + c.len();
        assert(c.len() == 178) by {
            reveal_strlit(
                "(\n    device float* a [[buffer(0)]],\n    device float* scalar_val [[buffer(1)]],\n    device float* out [[buffer(2)]],\n    uint tid [[thread_position_in_grid]]\n) {\n    out[tid] = ",
            );
        }
        body_read(s, e, f, t, n, scope);
    }
}

proof fn scalar_formula(o: Seq<char>)
    ensures
        "(a[tid] "@ + o + " scalar_val[0])"@ == seq!['('] + ("a"@ + "[tid]"@ + seq![' '] + o + seq![
            ' ',
        ] + ("scalar_val"@ + seq!['[', '0', ']'])) + seq![')'],
        "(scalar_val[0] "@ + o + " a[tid])"@ == seq!['('] + ("scalar_val"@ + seq!['[', '0', ']']
            + seq![' '] + o + seq![' '] + ("a"@ + "[tid]"@)) + seq![')'],
{
    literals();
    reveal_strlit("[tid]");
    reveal_strlit("(a[tid] ");
    reveal_strlit(" scalar_val[0])");
    reveal_strlit("(scalar_val[0] ");
    reveal_strlit(" a[tid])");
    reveal_with_fuel(text::same_from, 20);
    let a = "a"@ + "[tid]"@;
    let v = "scalar_val"@ + seq!['[', '0', ']'];
    text::same_texts("(a[tid] "@, seq!['('] + a + seq![' '], 0);
    text::same_texts(" scalar_val[0])"@, seq![' '] + v + seq![')'], 0);
    text::same_texts("(scalar_val[0] "@, seq!['('] + v + seq![' '], 0);
    text::same_texts(" a[tid])"@, seq![' '] + a + seq![')'], 0);
    assert("(a[tid] "@ + o + " scalar_val[0])"@ =~= seq!['('] + (a + seq![' '] + o + seq![' '] + v)
        + seq![')']);
    assert("(scalar_val[0] "@ + o + " a[tid])"@ =~= seq!['('] + (v + seq![' '] + o + seq![' '] + a)
        + seq![')']);
}

/// The first element of the array that holds a number.
proof fn scalar_phrase() -> (t: Term)
    ensures
        phrase("scalar_val"@ + seq!['[', '0', ']'], t),
        forall|n: Numbers, scope: Scope| #[trigger]
            t.value(n, scope) == Some((scope.element)("scalar_val"@, (n.integer)(0))),
{
    literals();
    let x = "scalar_val"@;
    let zero = text::decimal(0);
    reading_laws::digits_phrase(0);
    reading_laws::phrase_passage(zero, Term::Digits(zero));
    crate::numbers::decimals_are_read_back(0);
    assert(is_name(x));
    reading_laws::element_phrase(x, zero, Term::Digits(zero));
    assert(x + seq!['['] + zero + seq![']'] =~= x + seq!['[', '0', ']']);
    let t = Term::Element(Box::new(Term::Name(x)), Box::new(Term::Digits(zero)));
    reveal_with_fuel(Term::value, 3);
    t
}

proof fn elementwise_head(s: Seq<char>, i: nat)
    requires
        at(
            s,
            i,
            "(\n    device float* a [[buffer(0)]],\n    device float* b [[buffer(1)]],\n    device float* out [[buffer(2)]],\n    uint tid [[thread_position_in_grid]]\n) {\n    out[tid] = (a[tid] "@,
        ),
    ensures
        reading::declares(s, "a"@, 0),
        reading::declares(s, "b"@, 1),
        reading::declares(s, "out"@, 2),
        reading::declares_position(s, "tid"@),
        at(s, i + 149, "\n) {\n    out[tid] = "@),
{
    let c =
        "(\n    device float* a [[buffer(0)]],\n    device float* b [[buffer(1)]],\n    device float* out [[buffer(2)]],\n    uint tid [[thread_position_in_grid]]\n) {\n    out[tid] = (a[tid] "@;
    reveal_strlit(
        "(\n    device float* a [[buffer(0)]],\n    device float* b [[buffer(1)]],\n    device float* out [[buffer(2)]],\n    uint tid [[thread_position_in_grid]]\n) {\n    out[tid] = (a[tid] ",
    );
    literals();
    reveal_strlit("uint tid [[thread_position_in_grid]]");
    reveal_with_fuel(reading_laws::inside_from, 40);
    declared(s, i, c, 18, "a"@, 0);
    declared(s, i, c, 53, "b"@, 1);
    declared(s, i, c, 88, "out"@, 2);
    positioned(s, i, c, 113);
    reveal_strlit("\n) {\n    out[tid] = ");
    reading_laws::at_inside(s, i, c, 149, "\n) {\n    out[tid] = "@);
}

proof fn scalar_head(s: Seq<char>, i: nat)
    requires
        at(
            s,
            i,
            "(\n    device float* a [[buffer(0)]],\n    device float* scalar_val [[buffer(1)]],\n    device float* out [[buffer(2)]],\n    uint tid [[thread_position_in_grid]]\n) {\n    out[tid] = "@,
        ),
    ensures
        reading::declares(s, "a"@, 0),
        reading::declares(s, "scalar_val"@, 1),
        reading::declares(s, "out"@, 2),
        reading::declares_position(s, "tid"@),
        at(s, i + 158, "\n) {\n    out[tid] = "@),
{
    let c =
        "(\n    device float* a [[buffer(0)]],\n    device float* scalar_val [[buffer(1)]],\n    device float* out [[buffer(2)]],\n    uint tid [[thread_position_in_grid]]\n) {\n    out[tid] = "@;
    reveal_strlit(
        "(\n    device float* a [[buffer(0)]],\n    device float* scalar_val [[buffer(1)]],\n    device float* out [[buffer(2)]],\n    uint tid [[thread_position_in_grid]]\n) {\n    out[tid] = ",
    );
    literals();
    reveal_strlit("uint tid [[thread_position_in_grid]]");
    reveal_with_fuel(reading_laws::inside_from, 40);
    declared(s, i, c, 18, "a"@, 0);
    declared(s, i, c, 53, "scalar_val"@, 1);
    declared(s, i, c, 97, "out"@, 2);
    positioned(s, i, c, 122);
    reveal_strlit("\n) {\n    out[tid] = ");
    reading_laws::at_inside(s, i, c, 158, "\n) {\n    out[tid] = "@);
}

} // verus!
