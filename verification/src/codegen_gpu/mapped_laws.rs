//! That a kernel that is mapped over its operands computes, at the position of
//! every thread, what its body says.

use crate::codegen_gpu::error::Fail;
use crate::codegen_gpu::expr_laws;
use crate::codegen_gpu::implicit;
use crate::codegen_gpu::reading;
use crate::codegen_gpu::reading::{at, Scope, Term};
use crate::codegen_gpu::reading_laws;
use crate::codegen_gpu::reading_laws::{at_char, at_parts, ends, passage};
use crate::numbers::Numbers;
use crate::text;
use crate::typed::{ResolvedTy, TypedKernel, TypedParam, TypedStmt};
use vstd::prelude::*;

verus! {

/// What the statements from position `i` on return: each `let` gives a name its
/// value.
pub open spec fn returned(
    params: Seq<TypedParam>,
    body: Seq<TypedStmt>,
    i: nat,
    n: Numbers,
    scope: Scope,
) -> Option<int>
    decreases body.len() - i,
{
    if i >= body.len() {
        None
    } else {
        match body[i as int] {
            TypedStmt::Let { name, expr } => match expr_laws::mapped_value(
                expr,
                params,
                n,
                scope,
            ) {
                Some(y) => returned(params, body, i + 1, n, scope.with(name@, y)),
                None => None,
            },
            TypedStmt::Return { expr } => expr_laws::mapped_value(expr, params, n, scope),
            _ => None,
        }
    }
}

/// Whether the names and literals of a body are plain, and no name is that of
/// the position.
pub open spec fn body_plain(body: Seq<TypedStmt>) -> bool {
    forall|i: int|
        0 <= i < body.len() ==> match #[trigger] body[i] {
            TypedStmt::Let { name, expr } => expr_laws::is_free(name@) && name@ != "tid"@
                && expr_laws::mapped_plain(expr),
            TypedStmt::Return { expr } => expr_laws::mapped_plain(expr),
            _ => true,
        }
}

/// Types are spelled by words.
proof fn type_is_word(ty: ResolvedTy)
    requires
        ty.msl() is Ok,
    ensures
        reading::is_word(ty.msl()->Ok_0),
{
    reveal_strlit("float");
    reveal_strlit("half");
    reveal_strlit("bfloat");
    reveal_strlit("char");
    reveal_strlit("short");
    reveal_strlit("int");
    reveal_strlit("long");
    reveal_strlit("uchar");
    reveal_strlit("ushort");
    reveal_strlit("uint");
    reveal_strlit("ulong");
    reveal_strlit("void");
    let w = ty.msl()->Ok_0;
    assert forall|i: int| 0 <= i < w.len() implies reading::is_word_char(#[trigger] w[i]) by {
        assert(w.len() <= 6);
        assert(i == 0 || i == 1 || i == 2 || i == 3 || i == 4 || i == 5);
    }
}

/// A declaration of a name.
proof fn let_read(
    s: Seq<char>,
    p: nat,
    b: nat,
    ty: Seq<char>,
    name: Seq<char>,
    f: Seq<char>,
    term: Term,
    n: Numbers,
    scope: Scope,
)
    requires
        p <= b,
        reading::behind_space(s, p) == b,
        at(s, b, ty + " "@ + name + " = "@ + f + ";"@),
        reading::is_word(ty),
        reading::is_word(name),
        passage(f, term),
    ensures
        reading::writes(s, p, n, scope) == match term.value(n, scope) {
            Some(y) => reading::writes(
                s,
                b + ty.len() + name.len() + f.len() + 5,
                n,
                scope.with(name, y),
            ),
            None => None,
        },
{
    reveal_strlit(" ");
    reveal_strlit(" = ");
    reveal_strlit(";");
    at_parts(s, b, ty + " "@ + name + " = "@ + f, ";"@);
    at_parts(s, b, ty + " "@ + name + " = "@, f);
    at_parts(s, b, ty + " "@ + name, " = "@);
    at_parts(s, b, ty + " "@, name);
    at_parts(s, b, ty, " "@);
    let j = b + ty.len();
    let k = j + 1 + name.len();
    let e = k + 3 + f.len();
    at_char(s, j, " "@, 0);
    at_char(s, b, ty, 0);
    at_char(s, k, " = "@, 0);
    at_char(s, e, ";"@, 0);
    reading_laws::word_ends(s, b, ty, 0);
    reading_laws::word_ends(s, j + 1, name, 0);
    assert(" = "@ =~= seq![' ', '=', ' ']);
    assert(ends(s, e));
    assert(at(s, k + 3, f));
    assert(reading::expression(s, k + 3, 1) == Some((term, e)));
    assert(s.subrange(j as int + 1, k as int) == name);
}

/// Where a part of a joined text begins.
pub open spec fn part_at(parts: Seq<Seq<char>>, sep: Seq<char>, k: nat) -> nat {
    if k == 0 {
        0
    } else {
        text::joined(parts, sep, k).len() + sep.len()
    }
}

/// The parts of a joined text stand one behind the other.
pub proof fn parts_at(
    s: Seq<char>,
    start: nat,
    parts: Seq<Seq<char>>,
    sep: Seq<char>,
    n: nat,
    k: nat,
)
    requires
        k < n <= parts.len(),
        at(s, start, text::joined(parts, sep, n)),
    ensures
        at(s, start + part_at(parts, sep, k), parts[k as int]),
        k > 0 ==> at(s, start + text::joined(parts, sep, k).len(), sep),
        text::joined(parts, sep, k + 1).len() == part_at(parts, sep, k) + parts[k as int].len(),
    decreases n,
{
    if n > 1 {
        let head = text::joined(parts, sep, (n - 1) as nat);
        at_parts(s, start, head + sep, parts[n - 1]);
        at_parts(s, start, head, sep);
        if k + 1 < n {
            parts_at(s, start, parts, sep, (n - 1) as nat, k);
        }
    }
}

/// A body has as many lines as statements, and earlier lines stay.
proof fn lines_extend(
    params: Seq<TypedParam>,
    body: Seq<TypedStmt>,
    i: nat,
    locals: Seq<Seq<char>>,
    lines: Seq<Seq<char>>,
)
    requires
        i <= body.len(),
        implicit::mapped_lines(params, body, i, locals, lines) is Ok,
    ensures
        ({
            let all = implicit::mapped_lines(params, body, i, locals, lines)->Ok_0;
            &&& all.len() == lines.len() + body.len() - i
            &&& forall|k: int| 0 <= k < lines.len() ==> #[trigger] all[k] == lines[k]
        }),
    decreases body.len() - i,
{
    if i < body.len() {
        let all = implicit::mapped_lines(params, body, i, locals, lines)->Ok_0;
        match body[i as int] {
            TypedStmt::Let { name, expr } => {
                let v = expr.mapped(params, locals)->Ok_0;
                let line = expr.ty.msl()->Ok_0 + " "@ + name@ + " = "@ + v + ";"@;
                lines_extend(params, body, i + 1, locals.push(name@), lines.push(line));
                assert forall|k: int| 0 <= k < lines.len() implies #[trigger] all[k]
                    == lines[k] by {
                    assert(lines.push(line)[k] == lines[k]);
                }
            },
            TypedStmt::Return { expr } => {
                let v = expr.mapped(params, locals)->Ok_0;
                let line = "out[tid] = "@ + v + ";"@;
                lines_extend(params, body, i + 1, locals, lines.push(line));
                assert forall|k: int| 0 <= k < lines.len() implies #[trigger] all[k]
                    == lines[k] by {
                    assert(lines.push(line)[k] == lines[k]);
                }
            },
            _ => {},
        }
    }
}

/// The lines of a body from position `i` on do what its statements do.
#[verifier::spinoff_prover]
#[verifier::rlimit(40)]
proof fn lines_read(
    s: Seq<char>,
    start: nat,
    p: nat,
    params: Seq<TypedParam>,
    body: Seq<TypedStmt>,
    i: nat,
    locals: Seq<Seq<char>>,
    lines: Seq<Seq<char>>,
    all: Seq<Seq<char>>,
    n: Numbers,
    scope: Scope,
)
    requires
        i < body.len(),
        body_plain(body),
        lines.len() == i,
        implicit::mapped_lines(params, body, i, locals, lines) == Ok::<Seq<Seq<char>>, Fail>(all),
        at(s, start, text::joined(all, "\n    "@, all.len())),
        at(s, start + text::joined(all, "\n    "@, all.len()).len(), "\n}"@),
        p <= start + part_at(all, "\n    "@, i),
        reading::behind_space(s, p) == start + part_at(all, "\n    "@, i),
        returned(params, body, i, n, scope) is Some,
    ensures
        reading::writes(s, p, n, scope) == Some(
            seq![((scope.value)("tid"@), returned(params, body, i, n, scope)->0)],
        ),
    decreases body.len() - i,
{
    let sep = "\n    "@;
    let b = start + part_at(all, sep, i);
    lines_extend(params, body, i, locals, lines);
    parts_at(s, start, all, sep, all.len(), i);
    match body[i as int] {
        TypedStmt::Let { name, expr } => {
            let f = expr.mapped(params, locals)->Ok_0;
            let ty = expr.ty.msl()->Ok_0;
            let line = ty + " "@ + name@ + " = "@ + f + ";"@;
            let more = lines.push(line);
            lines_extend(params, body, i + 1, locals.push(name@), more);
            assert(all[i as int] == more[i as int]);
            let t = expr_laws::mapped_expressions_keep_their_meaning(expr, params, locals, n);
            reading_laws::phrase_passage(f, t);
            type_is_word(expr.ty);
            let_read(s, p, b, ty, name@, f, t, n, scope);
            assert(t.value(n, scope) == expr_laws::mapped_value(expr, params, n, scope));
            let y = t.value(n, scope)->0;
            let q = start + text::joined(all, sep, i + 1).len();
            assert(q == b + line.len());
            assert(line.len() == ty.len() + name@.len() + f.len() + 5) by {
                reveal_strlit(" ");
                reveal_strlit(" = ");
                reveal_strlit(";");
            }
            parts_at(s, start, all, sep, all.len(), i + 1);
            line_begins(params, body, i + 1, locals.push(name@), more, all);
            gap_read(s, q, all[i as int + 1]);
            let next = scope.with(name@, y);
            assert((next.value)("tid"@) == (scope.value)("tid"@));
            lines_read(
                s,
                start,
                q,
                params,
                body,
                i + 1,
                locals.push(name@),
                more,
                all,
                n,
                next,
            );
        },
        TypedStmt::Return { expr } => {
            let f = expr.mapped(params, locals)->Ok_0;
            let line = "out[tid] = "@ + f + ";"@;
            lines_extend(params, body, i + 1, locals, lines.push(line));
            assert(all[i as int] == lines.push(line)[i as int]);
            assert(all.len() == i + 1);
            let t = expr_laws::mapped_expressions_keep_their_meaning(expr, params, locals, n);
            reading_laws::phrase_passage(f, t);
            reading_laws::write_read(s, p, b, f, t, n, scope);
            assert(line.len() == f.len() + 12) by {
                reveal_strlit("out[tid] = ");
                reveal_strlit(";");
            }
            reading_laws::end_read(s, b + 12 + f.len(), n, scope);
            assert(t.value(n, scope) == expr_laws::mapped_value(expr, params, n, scope));
            let one = seq![((scope.value)("tid"@), t.value(n, scope)->0)];
            assert(one + Seq::<(int, int)>::empty() =~= one);
        },
        _ => {},
    }
}

/// A line begins with a letter.
proof fn line_begins(
    params: Seq<TypedParam>,
    body: Seq<TypedStmt>,
    i: nat,
    locals: Seq<Seq<char>>,
    lines: Seq<Seq<char>>,
    all: Seq<Seq<char>>,
)
    requires
        i < body.len(),
        lines.len() == i,
        implicit::mapped_lines(params, body, i, locals, lines) == Ok::<Seq<Seq<char>>, Fail>(all),
    ensures
        all.len() > i,
        all[i as int].len() > 0,
        reading::is_letter(all[i as int][0]),
{
    lines_extend(params, body, i, locals, lines);
    match body[i as int] {
        TypedStmt::Let { name, expr } => {
            let f = expr.mapped(params, locals)->Ok_0;
            let ty = expr.ty.msl()->Ok_0;
            let line = ty + " "@ + name@ + " = "@ + f + ";"@;
            lines_extend(params, body, i + 1, locals.push(name@), lines.push(line));
            assert(all[i as int] == lines.push(line)[i as int]);
            type_is_word(expr.ty);
            assert(line[0] == ty[0]);
        },
        TypedStmt::Return { expr } => {
            let f = expr.mapped(params, locals)->Ok_0;
            let line = "out[tid] = "@ + f + ";"@;
            lines_extend(params, body, i + 1, locals, lines.push(line));
            assert(all[i as int] == lines.push(line)[i as int]);
            reveal_strlit("out[tid] = ");
            assert(line[0] == 'o');
        },
        _ => {},
    }
}

/// A line end and blanks before a line.
proof fn gap_read(s: Seq<char>, q: nat, line: Seq<char>)
    requires
        at(s, q, "\n    "@),
        at(s, q + "\n    "@.len(), line),
        line.len() > 0 && reading::is_letter(line[0]),
    ensures
        reading::behind_space(s, q) == q + "\n    "@.len(),
{
    let sep = "\n    "@;
    reveal_strlit("\n    ");
    at_char(s, q, sep, 0);
    at_char(s, q, sep, 1);
    at_char(s, q, sep, 2);
    at_char(s, q, sep, 3);
    at_char(s, q, sep, 4);
    at_char(s, q + 5, line, 0);
    reveal_with_fuel(reading::behind_space, 8);
}

/// A mapped kernel writes, at the position of every thread, what its body
/// returns for the elements of its parameters there.
#[verifier::spinoff_prover]
#[verifier::rlimit(40)]
pub proof fn mapped_kernels_compute_their_body(
    k: TypedKernel,
    id: u64,
    n: Numbers,
    scope: Scope,
)
    requires
        implicit::mapped_kernel(k, id) is Ok,
        body_plain(k.body@),
        returned(k.params@, k.body@, 0, n, scope) is Some,
    ensures
        reading::outputs(
            implicit::mapped_kernel(k, id)->Ok_0,
            n,
            scope,
            seq![((scope.value)("tid"@), returned(k.params@, k.body@, 0, n, scope)->0)],
        ),
{
    let s = implicit::mapped_kernel(k, id)->Ok_0;
    let none = Seq::<Seq<char>>::empty();
    let all = implicit::mapped_lines(k.params@, k.body@, 0, none, none)->Ok_0;
    let sep = "\n    "@;
    let b = text::joined(all, sep, all.len());
    assert(implicit::mapped_body(k.params@, k.body@) == Ok::<Seq<char>, Fail>(b));
    let (start, q) = kernel_stands(k, id, b);
    lines_extend(k.params@, k.body@, 0, none, none);
    line_begins(k.params@, k.body@, 0, none, none, all);
    parts_at(s, start, all, sep, all.len(), 0);
    let first = all[0];
    at_char(s, start, first, 0);
    assert(reading::behind_space(s, q + 5) == start) by {
        reveal_strlit("\n) {\n    ");
        let lead = "\n) {\n    "@;
        at_char(s, q, lead, 5);
        at_char(s, q, lead, 6);
        at_char(s, q, lead, 7);
        at_char(s, q, lead, 8);
        reveal_with_fuel(reading::behind_space, 6);
    }
    lines_read(s, start, q + 5, k.params@, k.body@, 0, none, none, all, n, scope);
}

/// Where the body of a mapped kernel stands.
proof fn kernel_stands(k: TypedKernel, id: u64, b: Seq<char>) -> (r: (nat, nat))
    requires
        implicit::mapped_kernel(k, id) is Ok,
        implicit::mapped_body(k.params@, k.body@) == Ok::<Seq<char>, Fail>(b),
    ensures
        ({
            let s = implicit::mapped_kernel(k, id)->Ok_0;
            let (start, q) = r;
            &&& at(s, q, "\n) {\n    "@)
            &&& at(s, q, "\n) {\n"@)
            &&& start == q + 9
            &&& at(s, start, b)
            &&& at(s, start + b.len(), "\n}"@)
        }),
{
    let s = implicit::mapped_kernel(k, id)->Ok_0;
    let d = k.return_ty.dtype()->0;
    let ps = implicit::mapped_params(k.params@, 0, Seq::empty())->Ok_0;
    let all = ps.push(
        "device "@ + d.msl() + "* out [[buffer("@ + text::decimal(k.params@.len()) + ")]]"@,
    ).push("uint tid [[thread_position_in_grid]]"@);
    let a = "#include <metal_stdlib>\nusing namespace metal;\n\nkernel void malus_kernel_"@;
    let head = a + text::decimal(id as nat) + "(\n    "@ + text::joined(
        all,
        ",\n    "@,
        all.len(),
    );
    let lead = "\n) {\n    "@;
    let tail = "\n}\n"@;
    assert(s == head + lead + b + tail);
    assert(s.subrange(0, s.len() as int) =~= s);
    assert(at(s, 0, s));
    at_parts(s, 0, head + lead + b, tail);
    at_parts(s, 0, head + lead, b);
    at_parts(s, 0, head, lead);
    reveal_strlit("\n) {\n    ");
    reveal_strlit("\n) {\n");
    reveal_strlit("\n}\n");
    reveal_strlit("\n}");
    reveal_with_fuel(reading_laws::inside_from, 7);
    let q = head.len();
    reading_laws::at_inside(s, q, lead, 0, "\n) {\n"@);
    reading_laws::at_inside(s, q + 9 + b.len(), tail, 0, "\n}"@);
    (q + 9, q)
}

/// The declaration of a parameter.
pub open spec fn declaration(params: Seq<TypedParam>, k: int) -> Seq<char> {
    "device "@ + params[k].ty.dtype()->0.msl() + "* "@ + params[k].name@ + " [[buffer("@
        + text::decimal(k as nat) + ")]]"@
}

/// The declarations of the parameters, in order.
proof fn params_extend(params: Seq<TypedParam>, i: nat, done: Seq<Seq<char>>)
    requires
        i <= params.len(),
        done.len() == i,
        forall|k: int| 0 <= k < i ==> #[trigger] done[k] == declaration(params, k),
        implicit::mapped_params(params, i, done) is Ok,
    ensures
        ({
            let all = implicit::mapped_params(params, i, done)->Ok_0;
            &&& all.len() == params.len()
            &&& forall|k: int|
                0 <= k < params.len() ==> #[trigger] all[k] == declaration(params, k)
        }),
    decreases params.len() - i,
{
    if i < params.len() {
        params_extend(params, i + 1, done.push(declaration(params, i as int)));
    }
}

/// A declaration declares.
pub proof fn declares_read(s: Seq<char>, i: nat, head: Seq<char>, name: Seq<char>, buffer: nat)
    requires
        at(
            s,
            i,
            head + "* "@ + name + " [[buffer("@ + text::decimal(buffer) + ")]]"@,
        ),
    ensures
        reading::declares(s, name, buffer),
{
    let u = "* "@ + name + " [[buffer("@ + text::decimal(buffer) + ")]]"@;
    assert(head + "* "@ + name + " [[buffer("@ + text::decimal(buffer) + ")]]"@ =~= head + u);
    at_parts(s, i, head, u);
}

/// A mapped kernel takes its parameters from the first buffers, in order,
/// writes the next one, and has the position of its thread as `tid`.
pub proof fn mapped_kernels_bind_in_order(k: TypedKernel, id: u64, i: int)
    requires
        implicit::mapped_kernel(k, id) is Ok,
        0 <= i < k.params@.len(),
    ensures
        ({
            let s = implicit::mapped_kernel(k, id)->Ok_0;
            &&& reading::declares(s, k.params@[i].name@, i as nat)
            &&& reading::declares(s, "out"@, k.params@.len())
            &&& reading::declares_position(s, "tid"@)
        }),
{
    let s = implicit::mapped_kernel(k, id)->Ok_0;
    let d = k.return_ty.dtype()->0;
    let ps = implicit::mapped_params(k.params@, 0, Seq::empty())->Ok_0;
    params_extend(k.params@, 0, Seq::empty());
    let m = k.params@.len();
    let all = ps.push(output_line(d.msl(), m)).push(position_line());
    let sep = ",\n    "@;
    let start = list_stands(k, id, all);
    parts_at(s, start, all, sep, all.len(), i as nat);
    parts_at(s, start, all, sep, all.len(), m);
    parts_at(s, start, all, sep, all.len(), m + 1);
    assert(all[i] == ps[i]);
    declares_read(
        s,
        start + part_at(all, sep, i as nat),
        "device "@ + k.params@[i].ty.dtype()->0.msl(),
        k.params@[i].name@,
        i as nat,
    );
    assert(all[m as int] == output_line(d.msl(), m));
    output_line_read(d.msl(), m);
    declares_read(s, start + part_at(all, sep, m), "device "@ + d.msl(), "out"@, m);
    assert(all[m as int + 1] == position_line());
    position_line_read();
    assert(at(s, start + part_at(all, sep, m + 1), position_line()));
}

/// The declaration of the output.
pub open spec fn output_line(ty: Seq<char>, m: nat) -> Seq<char> {
    "device "@ + ty + "* out [[buffer("@ + text::decimal(m) + ")]]"@
}

/// The declaration of the position.
pub open spec fn position_line() -> Seq<char> {
    "uint tid [[thread_position_in_grid]]"@
}

pub proof fn output_line_read(ty: Seq<char>, m: nat)
    ensures
        output_line(ty, m) == "device "@ + ty + "* "@ + "out"@ + " [[buffer("@ + text::decimal(m)
            + ")]]"@,
{
    reveal_strlit("* out [[buffer(");
    reveal_strlit("* ");
    reveal_strlit("out");
    reveal_strlit(" [[buffer(");
    let w = "* "@ + "out"@ + " [[buffer("@;
    assert("* out [[buffer("@ == w) by {
        reveal_with_fuel(text::same_from, 17);
        text::same_texts("* out [[buffer("@, w, 0);
    }
    let n = text::decimal(m);
    assert("device "@ + ty + w + n + ")]]"@ =~= "device "@ + ty + "* "@ + "out"@ + " [[buffer("@ + n
        + ")]]"@);
}

proof fn position_line_read()
    ensures
        position_line() == "uint "@ + "tid"@ + " [[thread_position_in_grid]]"@,
{
    reveal_strlit("uint tid [[thread_position_in_grid]]");
    reveal_strlit("uint ");
    reveal_strlit("tid");
    reveal_strlit(" [[thread_position_in_grid]]");
    reveal_with_fuel(text::same_from, 40);
    text::same_texts(
        position_line(),
        "uint "@ + "tid"@ + " [[thread_position_in_grid]]"@,
        0,
    );
}

/// Where the list of declarations of a mapped kernel stands.
proof fn list_stands(k: TypedKernel, id: u64, all: Seq<Seq<char>>) -> (start: nat)
    requires
        implicit::mapped_kernel(k, id) is Ok,
        all == implicit::mapped_params(k.params@, 0, Seq::empty())->Ok_0.push(
            output_line(k.return_ty.dtype()->0.msl(), k.params@.len()),
        ).push(position_line()),
    ensures
        at(
            implicit::mapped_kernel(k, id)->Ok_0,
            start,
            text::joined(all, ",\n    "@, all.len()),
        ),
{
    let s = implicit::mapped_kernel(k, id)->Ok_0;
    let b = implicit::mapped_body(k.params@, k.body@)->Ok_0;
    let a = "#include <metal_stdlib>\nusing namespace metal;\n\nkernel void malus_kernel_"@;
    let head = a + text::decimal(id as nat) + "(\n    "@;
    let list = text::joined(all, ",\n    "@, all.len());
    let lead = "\n) {\n    "@;
    let tail = "\n}\n"@;
    assert(s == head + list + lead + b + tail);
    assert(s.subrange(0, s.len() as int) =~= s);
    assert(at(s, 0, s));
    at_parts(s, 0, head + list + lead + b, tail);
    at_parts(s, 0, head + list + lead, b);
    at_parts(s, 0, head + list, lead);
    at_parts(s, 0, head, list);
    head.len()
}

} // verus!
