//! How the lines of kernels that write their output themselves are read.

use crate::codegen_gpu::explicit::Names;
use crate::codegen_gpu::expr_laws;
use crate::codegen_gpu::reading;
use crate::codegen_gpu::reading::{at, Infix, Scope, Term};
use crate::codegen_gpu::reading_laws;
use crate::codegen_gpu::reading_laws::{at_char, at_parts, ends, passage, phrase};
use crate::numbers::Numbers;
use crate::typed::TypedStmt;
use vstd::prelude::*;

verus! {

/// The head of a counted loop: the variable, where it starts, the condition to
/// go on, and the variable that is advanced.
pub struct LoopHead {
    pub var: Seq<char>,
    pub from: Term,
    pub on: Term,
    pub advanced: Seq<char>,
}

/// A counted loop at a position.
pub open spec fn loop_head(s: Seq<char>, i: nat) -> Option<LoopHead> {
    if !at(s, i, seq!['f', 'o', 'r', '(']) {
        None
    } else {
        let k = reading::word_end(s, i + 4);
        let m = reading::word_end(s, k + 1);
        if !(k < s.len() && s[k as int] == ' ' && at(s, m, seq![' ', '=', ' '])) {
            None
        } else {
            match reading::expression(s, m + 3, 1) {
                Some((a, e)) => if !at(s, e, seq![';', ' ']) {
                    None
                } else {
                    match reading::expression(s, e + 2, 1) {
                        Some((b, g)) => {
                            let h = reading::word_end(s, g + 2);
                            if at(s, g, seq![';', ' ']) && at(
                                s,
                                h,
                                seq!['+', '+', ')', ' ', '{'],
                            ) {
                                Some(
                                    LoopHead {
                                        var: s.subrange(k as int + 1, m as int),
                                        from: a,
                                        on: b,
                                        advanced: s.subrange(g as int + 2, h as int),
                                    },
                                )
                            } else {
                                None
                            }
                        },
                        None => None,
                    }
                },
                None => None,
            }
        }
    }
}

/// The condition behind a word and a bracket at a position, up to the brace
/// that opens what depends on it.
pub open spec fn condition(s: Seq<char>, i: nat, word: Seq<char>) -> Option<Term> {
    if at(s, i, word + seq![' ', '(']) {
        match reading::expression(s, i + word.len() + 2, 1) {
            Some((t, j)) => if at(s, j, seq![')', ' ', '{']) {
                Some(t)
            } else {
                None
            },
            None => None,
        }
    } else {
        None
    }
}

/// A write to an element at a position: the array, the index and the value.
pub open spec fn element_write(s: Seq<char>, i: nat) -> Option<(Seq<char>, Term, Term)> {
    let j = reading::word_end(s, i);
    if !(i < j < s.len() && s[j as int] == '[') {
        None
    } else {
        match reading::expression(s, j + 1, 1) {
            Some((x, k)) => if at(s, k, seq![']', ' ', '=', ' ']) {
                match reading::expression(s, k + 4, 1) {
                    Some((v, e)) => if e < s.len() && s[e as int] == ';' {
                        Some((s.subrange(i as int, j as int), x, v))
                    } else {
                        None
                    },
                    None => None,
                }
            } else {
                None
            },
            None => None,
        }
    }
}

/// Lines stay when statements follow.
proof fn stmt_extends(names: Names, s: TypedStmt, indent: Seq<char>, out: Seq<Seq<char>>)
    requires
        names.stmt(s, indent, out) is Ok,
    ensures
        keeps_lines(out, names.stmt(s, indent, out)->Ok_0),
        out.len() < names.stmt(s, indent, out)->Ok_0.len(),
    decreases s, 0nat,
{
    match s {
        TypedStmt::If { condition, then_body, else_body } => {
            let c = names.expr(condition)->Ok_0;
            let o1 = out.push(indent + "if ("@ + c + ") {"@);
            body_extends(names, then_body@, 0, indent + "    "@, o1);
            let o = names.body(then_body@, 0, indent + "    "@, o1)->Ok_0;
            match else_body {
                Some(b) => {
                    body_extends(names, b@, 0, indent + "    "@, o.push(indent + "} else {"@));
                },
                None => {},
            }
        },
        TypedStmt::For { var, start, end, body } => {
            let from = names.expr(start)->Ok_0;
            let to = names.expr(end)->Ok_0;
            let ty = start.ty.msl()->Ok_0;
            let head = indent + "for("@ + ty + " "@ + var@ + " = "@ + from + "; "@ + var@ + " < "@
                + to + "; "@ + var@ + "++) {"@;
            body_extends(names, body@, 0, indent + "    "@, out.push(head));
        },
        TypedStmt::While { condition, body } => {
            let c = names.expr(condition)->Ok_0;
            body_extends(
                names,
                body@,
                0,
                indent + "    "@,
                out.push(indent + "while ("@ + c + ") {"@),
            );
        },
        _ => {},
    }
}

proof fn body_extends(
    names: Names,
    body: Seq<TypedStmt>,
    i: nat,
    indent: Seq<char>,
    out: Seq<Seq<char>>,
)
    requires
        names.body(body, i, indent, out) is Ok,
    ensures
        keeps_lines(out, names.body(body, i, indent, out)->Ok_0),
    decreases body, body.len() - i,
{
    if i < body.len() {
        stmt_extends(names, body[i as int], indent, out);
        let o = names.stmt(body[i as int], indent, out)->Ok_0;
        body_extends(names, body, i + 1, indent, o);
        let all = names.body(body, i, indent, out)->Ok_0;
        assert forall|k: int| 0 <= k < out.len() implies #[trigger] all[k] == out[k] by {
            assert(o[k] == out[k]);
        }
    }
}

/// Whether lines are kept.
pub open spec fn keeps_lines(out: Seq<Seq<char>>, all: Seq<Seq<char>>) -> bool {
    out.len() <= all.len() && forall|k: int| 0 <= k < out.len() ==> #[trigger] all[k] == out[k]
}

proof fn text_stands(s: Seq<char>)
    ensures
        at(s, 0, s),
{
    assert(s.subrange(0, s.len() as int) =~= s);
}

/// A loop over a range runs its variable from the first bound up to, and
/// without, the second, and advances it. What belongs to it stands between its
/// head and a brace.
#[verifier::spinoff_prover]
#[verifier::rlimit(60)]
pub proof fn loops_count_up(
    names: Names,
    s: TypedStmt,
    indent: Seq<char>,
    out: Seq<Seq<char>>,
    n: Numbers,
)
    requires
        s is For,
        names.stmt(s, indent, out) is Ok,
        expr_laws::is_free(s->For_var@),
        expr_laws::plain(names, s->start),
        expr_laws::plain(names, s->end),
        reading::is_word(s->start.ty.msl()->Ok_0),
    ensures
        ({
            let lines = names.stmt(s, indent, out)->Ok_0;
            let head = loop_head(lines[out.len() as int], indent.len());
            &&& out.len() < lines.len()
            &&& head is Some
            &&& head->0.var == s->For_var@
            &&& head->0.advanced == s->For_var@
            &&& forall|scope: Scope| #[trigger]
                head->0.from.value(n, scope) == expr_laws::explicit_value(
                    names,
                    s->start,
                    n,
                    scope,
                )
            &&& forall|scope: Scope| #[trigger]
                head->0.on.value(n, scope) == match expr_laws::explicit_value(
                    names,
                    s->end,
                    n,
                    scope,
                ) {
                    Some(y) => Some((n.truth)((n.less)((scope.value)(s->For_var@), y))),
                    None => None,
                }
            &&& lines.last() == indent + "}"@
        }),
{
    let var = s->For_var@;
    let body = s->For_body@;
    let from = names.expr(s->start)->Ok_0;
    let to = names.expr(s->end)->Ok_0;
    let ty = s->start.ty.msl()->Ok_0;
    let h = indent + "for("@ + ty + " "@ + var + " = "@ + from + "; "@ + var + " < "@ + to + "; "@
        + var + "++) {"@;
    let lines = names.stmt(s, indent, out)->Ok_0;
    body_extends(names, body, 0, indent + "    "@, out.push(h));
    let o = names.body(body, 0, indent + "    "@, out.push(h))->Ok_0;
    assert(o[out.len() as int] == out.push(h)[out.len() as int]);
    assert(lines == o.push(indent + "}"@));
    assert(lines[out.len() as int] == h);
    let a = expr_laws::kernel_expressions_keep_their_meaning(names, s->start, n);
    let b = expr_laws::kernel_expressions_keep_their_meaning(names, s->end, n);
    head_read(indent, ty, var, from, a, to, b, n);
}

/// The head of a loop is read.
#[verifier::spinoff_prover]
#[verifier::rlimit(60)]
proof fn head_read(
    indent: Seq<char>,
    ty: Seq<char>,
    var: Seq<char>,
    from: Seq<char>,
    a: Term,
    to: Seq<char>,
    b: Term,
    n: Numbers,
) -> (on: Term)
    requires
        reading::is_word(ty),
        expr_laws::is_free(var),
        phrase(from, a),
        phrase(to, b),
    ensures
        loop_head(
            indent + "for("@ + ty + " "@ + var + " = "@ + from + "; "@ + var + " < "@ + to + "; "@
                + var + "++) {"@,
            indent.len(),
        ) == Some(LoopHead { var, from: a, on, advanced: var }),
        forall|scope: Scope| #[trigger]
            on.value(n, scope) == match b.value(n, scope) {
                Some(y) => Some((n.truth)((n.less)((scope.value)(var), y))),
                None => None,
            },
{
    reveal_strlit("for(");
    reveal_strlit(" ");
    reveal_strlit(" = ");
    reveal_strlit("; ");
    reveal_strlit(" < ");
    reveal_strlit("++) {");
    assert("for("@ =~= seq!['f', 'o', 'r', '(']);
    assert(" = "@ =~= seq![' ', '=', ' ']);
    assert("; "@ =~= seq![';', ' ']);
    assert("++) {"@ =~= seq!['+', '+', ')', ' ', '{']);
    let h0 = indent + "for("@;
    let h1 = h0 + ty;
    let h2 = h1 + " "@;
    let h3 = h2 + var;
    let h4 = h3 + " = "@;
    let h5 = h4 + from;
    let h6 = h5 + "; "@;
    let test = var + " < "@ + to;
    let h7 = h6 + test;
    let h8 = h7 + "; "@;
    let h9 = h8 + var;
    let s = h9 + "++) {"@;
    assert(h6 + var + " < "@ + to =~= h7);
    text_stands(s);
    at_parts(s, 0, h9, "++) {"@);
    at_parts(s, 0, h8, var);
    at_parts(s, 0, h7, "; "@);
    at_parts(s, 0, h6, test);
    at_parts(s, 0, h5, "; "@);
    at_parts(s, 0, h4, from);
    at_parts(s, 0, h3, " = "@);
    at_parts(s, 0, h2, var);
    at_parts(s, 0, h1, " "@);
    at_parts(s, 0, h0, ty);
    at_parts(s, 0, indent, "for("@);
    at_char(s, h1.len(), " "@, 0);
    at_char(s, h3.len(), " = "@, 0);
    at_char(s, h5.len(), "; "@, 0);
    at_char(s, h7.len(), "; "@, 0);
    at_char(s, h9.len(), "++) {"@, 0);
    reading_laws::word_ends(s, h0.len(), ty, 0);
    reading_laws::word_ends(s, h2.len(), var, 0);
    reading_laws::word_ends(s, h8.len(), var, 0);
    reading_laws::phrase_passage(from, a);
    assert(ends(s, h5.len()));
    assert(reading::expression(s, h4.len(), 1) == Some((a, h5.len())));
    let on = test_read(var, to, b, n);
    assert(ends(s, h7.len()));
    assert(at(s, h6.len(), test));
    assert(reading::expression(s, h6.len(), 1) == Some((on, h7.len())));
    on
}

/// A variable is below a bound.
proof fn test_read(var: Seq<char>, to: Seq<char>, b: Term, n: Numbers) -> (on: Term)
    requires
        expr_laws::is_free(var),
        phrase(to, b),
    ensures
        passage(var + " < "@ + to, on),
        forall|scope: Scope| #[trigger]
            on.value(n, scope) == match b.value(n, scope) {
                Some(y) => Some((n.truth)((n.less)((scope.value)(var), y))),
                None => None,
            },
{
    reveal_strlit(" < ");
    let o = seq!['<'];
    assert(reading_laws::spells(o, Infix::Below)) by {
        assert forall|s: Seq<char>, i: nat|
            #![trigger at(s, i, o)]
            at(s, i, o) && i + o.len() < s.len() && s[(i + o.len()) as int]
                == ' ' implies reading::operator(s, i) == Some((Infix::Below, i + o.len())) by {
            at_char(s, i, o, 0);
        }
    }
    reading_laws::name_phrase(var);
    reading_laws::infix_passage(var, Term::Name(var), o, Infix::Below, to, b);
    assert(var + " < "@ + to =~= var + seq![' '] + o + seq![' '] + to);
    let on = Term::Infix(Infix::Below, Box::new(Term::Name(var)), Box::new(b));
    assert forall|scope: Scope| #[trigger]
        on.value(n, scope) == match b.value(n, scope) {
        Some(y) => Some((n.truth)((n.less)((scope.value)(var), y))),
        None => None,
    } by {
        expr_laws::name_value(var, n, scope);
        reading_laws::infix_value(Infix::Below, Term::Name(var), b, n, scope);
    }
    on
}

/// A word and a condition in brackets are read.
proof fn condition_read(indent: Seq<char>, word: Seq<char>, c: Seq<char>, t: Term)
    requires
        phrase(c, t),
    ensures
        condition(indent + (word + seq![' ', '(']) + c + ") {"@, indent.len(), word) == Some(t),
{
    reveal_strlit(") {");
    assert(") {"@ =~= seq![')', ' ', '{']);
    let open_ = word + seq![' ', '('];
    let s = indent + open_ + c + ") {"@;
    text_stands(s);
    at_parts(s, 0, indent + open_ + c, ") {"@);
    at_parts(s, 0, indent + open_, c);
    at_parts(s, 0, indent, open_);
    let j = (indent + open_ + c).len();
    at_char(s, j, ") {"@, 0);
    assert(ends(s, j));
    reading_laws::phrase_passage(c, t);
    assert(at(s, (indent + open_).len(), c));
    assert(reading::expression(s, (indent + open_).len(), 1) == Some((t, j)));
}

/// A choice tests its condition, what belongs to the first branch stands behind
/// it, and what belongs to the other behind `else`; a loop with a condition
/// tests it.
pub proof fn conditions_are_tested(
    names: Names,
    s: TypedStmt,
    indent: Seq<char>,
    out: Seq<Seq<char>>,
    n: Numbers,
)
    requires
        s is If || s is While,
        names.stmt(s, indent, out) is Ok,
        s is If ==> expr_laws::plain(names, s->If_condition),
        s is While ==> expr_laws::plain(names, s->While_condition),
    ensures
        ({
            let lines = names.stmt(s, indent, out)->Ok_0;
            let (word, c) = if s is If {
                (seq!['i', 'f'], s->If_condition)
            } else {
                (seq!['w', 'h', 'i', 'l', 'e'], s->While_condition)
            };
            let t = condition(lines[out.len() as int], indent.len(), word);
            &&& out.len() < lines.len()
            &&& t is Some
            &&& forall|scope: Scope| #[trigger]
                t->0.value(n, scope) == expr_laws::explicit_value(names, c, n, scope)
            &&& lines.last() == indent + "}"@
        }),
{
    let lines = names.stmt(s, indent, out)->Ok_0;
    let more = indent + "    "@;
    if s is If {
        let c = names.expr(s->If_condition)->Ok_0;
        let t = expr_laws::kernel_expressions_keep_their_meaning(names, s->If_condition, n);
        let word = seq!['i', 'f'];
        reveal_strlit("if (");
        assert("if ("@ =~= word + seq![' ', '(']);
        condition_read(indent, word, c, t);
        let h = indent + "if ("@ + c + ") {"@;
        body_extends(names, s->then_body@, 0, more, out.push(h));
        let o = names.body(s->then_body@, 0, more, out.push(h))->Ok_0;
        assert(o[out.len() as int] == out.push(h)[out.len() as int]);
        match s->else_body {
            Some(b) => {
                let o1 = o.push(indent + "} else {"@);
                body_extends(names, b@, 0, more, o1);
                let o2 = names.body(b@, 0, more, o1)->Ok_0;
                assert(o2[out.len() as int] == o1[out.len() as int]);
                assert(lines == o2.push(indent + "}"@));
            },
            None => {
                assert(lines == o.push(indent + "}"@));
            },
        }
        assert(lines[out.len() as int] == h);
    } else {
        let c = names.expr(s->While_condition)->Ok_0;
        let t = expr_laws::kernel_expressions_keep_their_meaning(names, s->While_condition, n);
        let word = seq!['w', 'h', 'i', 'l', 'e'];
        reveal_strlit("while (");
        assert("while ("@ =~= word + seq![' ', '(']);
        condition_read(indent, word, c, t);
        let h = indent + "while ("@ + c + ") {"@;
        body_extends(names, s->While_body@, 0, more, out.push(h));
        let o = names.body(s->While_body@, 0, more, out.push(h))->Ok_0;
        assert(o[out.len() as int] == out.push(h)[out.len() as int]);
        assert(lines == o.push(indent + "}"@));
        assert(lines[out.len() as int] == h);
    }
}

/// An assignment to an element writes the value of the right side to the
/// element of that array at the index.
pub proof fn elements_are_written(
    names: Names,
    s: TypedStmt,
    indent: Seq<char>,
    out: Seq<Seq<char>>,
    n: Numbers,
)
    requires
        s is Assign,
        s->target is Index,
        names.stmt(s, indent, out) is Ok,
        expr_laws::is_free(s->target->Index_base@),
        expr_laws::plain(names, *s->target->Index_index),
        expr_laws::plain(names, s->Assign_expr),
    ensures
        ({
            let lines = names.stmt(s, indent, out)->Ok_0;
            let w = element_write(lines[out.len() as int], indent.len());
            &&& lines.len() == out.len() + 1
            &&& w is Some
            &&& (w->0).0 == s->target->Index_base@
            &&& forall|scope: Scope| #[trigger]
                (w->0).1.value(n, scope) == expr_laws::explicit_value(
                    names,
                    *s->target->Index_index,
                    n,
                    scope,
                )
            &&& forall|scope: Scope| #[trigger]
                (w->0).2.value(n, scope) == expr_laws::explicit_value(
                    names,
                    s->Assign_expr,
                    n,
                    scope,
                )
        }),
{
    let x = s->target->Index_base@;
    let i = names.expr(*s->target->Index_index)->Ok_0;
    let v = names.expr(s->Assign_expr)->Ok_0;
    let a = expr_laws::kernel_expressions_keep_their_meaning(names, *s->target->Index_index, n);
    let b = expr_laws::kernel_expressions_keep_their_meaning(names, s->Assign_expr, n);
    write_line(indent, x, i, a, v, b);
    let line = indent + x + "["@ + i + "] = "@ + v + ";"@;
    assert(names.stmt(s, indent, out)->Ok_0 == out.push(line));
}

proof fn write_line(indent: Seq<char>, x: Seq<char>, i: Seq<char>, a: Term, v: Seq<char>, b: Term)
    requires
        expr_laws::is_free(x),
        phrase(i, a),
        phrase(v, b),
    ensures
        element_write(indent + x + "["@ + i + "] = "@ + v + ";"@, indent.len()) == Some((x, a, b)),
{
    reveal_strlit("[");
    reveal_strlit("] = ");
    reveal_strlit(";");
    assert("] = "@ =~= seq![']', ' ', '=', ' ']);
    let h1 = indent + x;
    let h2 = h1 + "["@;
    let h3 = h2 + i;
    let h4 = h3 + "] = "@;
    let h5 = h4 + v;
    let s = h5 + ";"@;
    text_stands(s);
    at_parts(s, 0, h5, ";"@);
    at_parts(s, 0, h4, v);
    at_parts(s, 0, h3, "] = "@);
    at_parts(s, 0, h2, i);
    at_parts(s, 0, h1, "["@);
    at_parts(s, 0, indent, x);
    at_char(s, h1.len(), "["@, 0);
    at_char(s, h3.len(), "] = "@, 0);
    at_char(s, h5.len(), ";"@, 0);
    reading_laws::word_ends(s, indent.len(), x, 0);
    reading_laws::phrase_passage(i, a);
    reading_laws::phrase_passage(v, b);
    assert(ends(s, h3.len()) && ends(s, h5.len()));
    assert(reading::expression(s, h2.len(), 1) == Some((a, h3.len())));
    assert(reading::expression(s, h4.len(), 1) == Some((b, h5.len())));
}

} // verus!
