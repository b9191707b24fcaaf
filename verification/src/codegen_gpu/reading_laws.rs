//! How texts that are put together from parts are read.

use crate::codegen_gpu::reading;
use crate::codegen_gpu::reading::{at, Infix, Scope, Term};
use crate::numbers;
use crate::numbers::Numbers;
use crate::text;
use vstd::prelude::*;

verus! {

/// Whether a term without infix operators cannot go on at a position.
pub open spec fn closes(s: Seq<char>, i: nat) -> bool {
    i >= s.len() || s[i as int] == ' ' || ends(s, i)
}

/// Whether an expression cannot go on at a position.
pub open spec fn ends(s: Seq<char>, i: nat) -> bool {
    i >= s.len() || s[i as int] == ')' || s[i as int] == ']' || s[i as int] == ',' || s[i as int]
        == ';'
}

/// Whether a text is read as a term, wherever it stands and the term cannot go
/// on behind it.
pub open spec fn phrase(t: Seq<char>, term: Term) -> bool {
    &&& t.len() > 0
    &&& t[0] != '-'
    &&& forall|s: Seq<char>, i: nat|
        #![trigger at(s, i, t)]
        at(s, i, t) && closes(s, i + t.len()) ==> reading::operand(s, i) == Some(
            (term, i + t.len()),
        ) && !at(s, i, seq!['i', 'n', 't', ')'])
}

/// Whether a text is read as an expression, wherever it stands and the
/// expression cannot go on behind it.
pub open spec fn passage(t: Seq<char>, term: Term) -> bool {
    &&& t.len() > 0
    &&& forall|s: Seq<char>, i: nat|
        #![trigger at(s, i, t)]
        at(s, i, t) && ends(s, i + t.len()) ==> reading::expression(s, i, 1) == Some(
            (term, i + t.len()),
        ) && !at(s, i, seq!['i', 'n', 't', ')'])
}

/// Whether a text spells an infix operator.
pub open spec fn spells(o: Seq<char>, op: Infix) -> bool {
    &&& o.len() > 0
    &&& forall|s: Seq<char>, i: nat|
        #![trigger at(s, i, o)]
        at(s, i, o) && i + o.len() < s.len() && s[(i + o.len()) as int] == ' '
            ==> reading::operator(s, i) == Some((op, i + o.len()))
}

pub proof fn at_char(s: Seq<char>, i: nat, t: Seq<char>, k: int)
    requires
        at(s, i, t),
        0 <= k < t.len(),
    ensures
        i + k < s.len(),
        s[i + k] == t[k],
{
    assert(s.subrange(i as int, (i + t.len()) as int)[k] == s[i + k]);
}

/// A text that is put together stands where its parts do.
pub proof fn at_parts(s: Seq<char>, i: nat, a: Seq<char>, b: Seq<char>)
    requires
        at(s, i, a + b),
    ensures
        at(s, i, a),
        at(s, i + a.len(), b),
        i + a.len() + b.len() <= s.len(),
{
    let t = s.subrange(i as int, (i + a.len() + b.len()) as int);
    assert(t == a + b);
    assert forall|k: int| 0 <= k < a.len() implies s.subrange(
        i as int,
        (i + a.len()) as int,
    )[k] == a[k] by {
        assert(t[k] == (a + b)[k]);
    }
    assert(s.subrange(i as int, (i + a.len()) as int) =~= a);
    assert forall|k: int| 0 <= k < b.len() implies s.subrange(
        (i + a.len()) as int,
        (i + a.len() + b.len()) as int,
    )[k] == b[k] by {
        assert(t[a.len() + k] == (a + b)[a.len() + k]);
    }
    assert(s.subrange((i + a.len()) as int, (i + a.len() + b.len()) as int) =~= b);
}

/// A word ends where it ends.
pub proof fn word_ends(s: Seq<char>, i: nat, n: Seq<char>, k: nat)
    requires
        at(s, i, n),
        k <= n.len(),
        forall|j: int| 0 <= j < n.len() ==> reading::is_word_char(#[trigger] n[j]),
        i + n.len() < s.len() ==> !reading::is_word_char(s[(i + n.len()) as int]),
    ensures
        reading::word_end(s, i + k) == i + n.len(),
    decreases n.len() - k,
{
    if k < n.len() {
        at_char(s, i, n, k as int);
        assert(reading::is_word_char(n[k as int]));
        word_ends(s, i, n, k + 1);
    }
}

/// A number ends where it ends.
proof fn number_ends(s: Seq<char>, i: nat, n: Seq<char>, k: nat)
    requires
        at(s, i, n),
        k <= n.len(),
        reading::is_number(n),
        i + n.len() < s.len() ==> !reading::number_goes_on(s, (i + n.len()) as int),
    ensures
        reading::number_end(s, i + k) == i + n.len(),
    decreases n.len() - k,
{
    if k < n.len() {
        at_char(s, i, n, k as int);
        assert(reading::number_goes_on(n, k as int));
        if k > 0 {
            at_char(s, i, n, k - 1);
        }
        number_ends(s, i, n, k + 1);
    }
}

/// Names that are not the name of the cast.
pub open spec fn is_name(n: Seq<char>) -> bool {
    reading::is_word(n) && n != seq!['i', 'n', 't']
}

/// A name does not begin a cast.
proof fn no_cast(s: Seq<char>, i: nat, n: Seq<char>)
    requires
        at(s, i, n),
        is_name(n),
        i + n.len() < s.len() ==> !reading::is_word_char(s[(i + n.len()) as int]),
    ensures
        !at(s, i, seq!['i', 'n', 't', ')']),
{
    let cast = seq!['i', 'n', 't', ')'];
    if at(s, i, cast) {
        at_char(s, i, cast, 0);
        at_char(s, i, cast, 1);
        at_char(s, i, cast, 2);
        at_char(s, i, cast, 3);
        if n.len() > 3 {
            at_char(s, i, n, 3);
            assert(reading::is_word_char(n[3]));
        } else {
            at_char(s, i, n, 0);
            if n.len() > 1 {
                at_char(s, i, n, 1);
            }
            if n.len() > 2 {
                at_char(s, i, n, 2);
            }
            if n.len() == 3 {
                assert(n =~= seq!['i', 'n', 't']);
            }
            assert(s[(i + n.len()) as int] == cast[n.len() as int]);
        }
    }
}

/// What stands behind a name that is read.
proof fn name_read(s: Seq<char>, i: nat, n: Seq<char>)
    requires
        at(s, i, n),
        is_name(n),
        i + n.len() < s.len() ==> !reading::is_word_char(s[(i + n.len()) as int]),
        !(i + n.len() < s.len() && s[(i + n.len()) as int] == '('),
    ensures
        reading::operand(s, i) == reading::selected(s, Term::Name(n), i + n.len()),
        !at(s, i, seq!['i', 'n', 't', ')']),
{
    no_cast(s, i, n);
    word_ends(s, i, n, 0);
    at_char(s, i, n, 0);
    assert(reading::is_letter(n[0]));
    let cast = seq!['(', 'i', 'n', 't', ')'];
    if at(s, i, cast) {
        at_char(s, i, cast, 0);
    }
}

/// A name is read as a name.
pub proof fn name_phrase(n: Seq<char>)
    requires
        is_name(n),
    ensures
        phrase(n, Term::Name(n)),
{
    assert forall|s: Seq<char>, i: nat|
        #![trigger at(s, i, n)]
        at(s, i, n) && closes(s, i + n.len()) implies reading::operand(s, i) == Some(
        (Term::Name(n), i + n.len()),
    ) && !at(s, i, seq!['i', 'n', 't', ')']) by {
        name_read(s, i, n);
    }
}

/// A number with a fraction or an exponent is read as itself.
pub proof fn decimal_phrase(n: Seq<char>)
    requires
        reading::is_number(n),
    ensures
        phrase(n + seq!['f'], Term::Decimal(n)),
{
    let t = n + seq!['f'];
    assert(t[0] == n[0]);
    assert forall|s: Seq<char>, i: nat|
        #![trigger at(s, i, t)]
        at(s, i, t) && closes(s, i + t.len()) implies reading::operand(s, i) == Some(
        (Term::Decimal(n), i + t.len()),
    ) && !at(s, i, seq!['i', 'n', 't', ')']) by {
        at_parts(s, i, n, seq!['f']);
        at_char(s, i + n.len(), seq!['f'], 0);
        number_read(s, i, n);
    }
}

proof fn number_read(s: Seq<char>, i: nat, n: Seq<char>)
    requires
        at(s, i, n),
        reading::is_number(n),
        i + n.len() < s.len() ==> !reading::number_goes_on(s, (i + n.len()) as int),
    ensures
        reading::operand(s, i) == if i + n.len() < s.len() && s[(i + n.len()) as int] == 'f' {
            Some((Term::Decimal(n), i + n.len() + 1))
        } else {
            Some((Term::Digits(n), i + n.len()))
        },
        !at(s, i, seq!['i', 'n', 't', ')']),
{
    number_ends(s, i, n, 0);
    at_char(s, i, n, 0);
    let cast = seq!['(', 'i', 'n', 't', ')'];
    if at(s, i, cast) {
        at_char(s, i, cast, 0);
    }
    let bare = seq!['i', 'n', 't', ')'];
    if at(s, i, bare) {
        at_char(s, i, bare, 0);
    }
}

/// A row of digits is read as itself.
pub proof fn digits_phrase(n: nat)
    ensures
        phrase(text::decimal(n), Term::Digits(text::decimal(n))),
{
    let t = text::decimal(n);
    numbers::decimals_are_read_back(n);
    assert forall|k: int| 0 <= k < t.len() implies #[trigger] reading::number_goes_on(t, k) by {
        assert('0' <= t[k] <= '9');
    }
    assert('0' <= t[0] <= '9');
    assert forall|s: Seq<char>, i: nat|
        #![trigger at(s, i, t)]
        at(s, i, t) && closes(s, i + t.len()) implies reading::operand(s, i) == Some(
        (Term::Digits(t), i + t.len()),
    ) && !at(s, i, seq!['i', 'n', 't', ')']) by {
        number_read(s, i, t);
    }
}

/// A term is an expression.
pub proof fn phrase_passage(t: Seq<char>, term: Term)
    requires
        phrase(t, term),
    ensures
        passage(t, term),
{
    assert forall|s: Seq<char>, i: nat|
        #![trigger at(s, i, t)]
        at(s, i, t) && ends(s, i + t.len()) implies reading::expression(s, i, 1) == Some(
        (term, i + t.len()),
    ) && !at(s, i, seq!['i', 'n', 't', ')']) by {
        assert(closes(s, i + t.len()));
        stops(s, term, i + t.len(), 1);
    }
}

/// No operator follows where an expression cannot go on.
pub proof fn stops(s: Seq<char>, term: Term, i: nat, least: nat)
    requires
        ends(s, i),
    ensures
        reading::operators(s, term, i, least) == Some((term, i)),
{
}

/// An expression in brackets is a term.
pub proof fn bracket_phrase(t: Seq<char>, term: Term)
    requires
        passage(t, term),
    ensures
        phrase(seq!['('] + t + seq![')'], term),
{
    let u = seq!['('] + t + seq![')'];
    assert(u[0] == '(');
    assert forall|s: Seq<char>, i: nat|
        #![trigger at(s, i, u)]
        at(s, i, u) && closes(s, i + u.len()) implies reading::operand(s, i) == Some(
        (term, i + u.len()),
    ) && !at(s, i, seq!['i', 'n', 't', ')']) by {
        at_parts(s, i, seq!['('] + t, seq![')']);
        at_parts(s, i, seq!['('], t);
        at_char(s, i, seq!['('], 0);
        at_char(s, i + 1 + t.len(), seq![')'], 0);
        assert(at(s, i + 1, t));
        assert(ends(s, i + 1 + t.len()));
        let bare = seq!['i', 'n', 't', ')'];
        let cast = seq!['(', 'i', 'n', 't', ')'];
        if at(s, i, bare) {
            at_char(s, i, bare, 0);
        }
        if at(s, i, cast) {
            assert(cast =~= seq!['('] + bare);
            at_parts(s, i, seq!['('], bare);
        }
        assert(reading::selected(s, term, i + u.len()) == Some((term, i + u.len())));
    }
}

/// A term, an operator and a term are an expression.
pub proof fn infix_passage(
    lt: Seq<char>,
    l: Term,
    o: Seq<char>,
    op: Infix,
    rt: Seq<char>,
    r: Term,
)
    requires
        phrase(lt, l),
        phrase(rt, r),
        spells(o, op),
    ensures
        passage(
            lt + seq![' '] + o + seq![' '] + rt,
            Term::Infix(op, Box::new(l), Box::new(r)),
        ),
{
    let u = lt + seq![' '] + o + seq![' '] + rt;
    let term = Term::Infix(op, Box::new(l), Box::new(r));
    assert forall|s: Seq<char>, i: nat|
        #![trigger at(s, i, u)]
        at(s, i, u) && ends(s, i + u.len()) implies reading::expression(s, i, 1) == Some(
        (term, i + u.len()),
    ) && !at(s, i, seq!['i', 'n', 't', ')']) by {
        at_parts(s, i, lt + seq![' '] + o + seq![' '], rt);
        at_parts(s, i, lt + seq![' '] + o, seq![' ']);
        at_parts(s, i, lt + seq![' '], o);
        at_parts(s, i, lt, seq![' ']);
        let j = i + lt.len();
        let k = j + 1 + o.len();
        at_char(s, j, seq![' '], 0);
        at_char(s, k, seq![' '], 0);
        assert(at(s, j + 1, o));
        assert(reading::operator(s, j + 1) == Some((op, k)));
        assert(at(s, k + 1, rt));
        let e = k + 1 + rt.len();
        assert(e == i + u.len());
        at_char(s, k + 1, rt, 0);
        second_operand(s, k, rt, r, op.strength() + 1);
        assert(reading::operators(s, term, e, 1) == Some((term, e))) by {
            stops(s, term, e, 1);
        }
        assert(reading::behind_blank(s, j) == j + 1);
        assert(op.strength() >= 1);
        assert(reading::operators(s, l, j, 1) == Some((term, e)));
        assert(reading::operand(s, i) == Some((l, j)));
    }
}

/// The operand behind an operator and a blank is read.
proof fn second_operand(s: Seq<char>, k: nat, rt: Seq<char>, r: Term, least: nat)
    requires
        phrase(rt, r),
        k < s.len(),
        s[k as int] == ' ',
        at(s, k + 1, rt),
        ends(s, k + 1 + rt.len()),
    ensures
        reading::behind_blank(s, k) == k + 1,
        reading::expression(s, k + 1, least) == Some((r, k + 1 + rt.len())),
{
    at_char(s, k + 1, rt, 0);
    assert(closes(s, k + 1 + rt.len()));
    stops(s, r, k + 1 + rt.len(), least);
}

/// A sign and a term are an expression, and so are a negation and a term.
pub proof fn sign_passage(t: Seq<char>, term: Term)
    requires
        phrase(t, term),
    ensures
        passage(seq!['-'] + t, Term::Negative(Box::new(term))),
        passage(seq!['!'] + t, Term::Not(Box::new(term))),
{
    signed(t, term, '-', Term::Negative(Box::new(term)));
    signed(t, term, '!', Term::Not(Box::new(term)));
}

proof fn signed(t: Seq<char>, term: Term, c: char, whole: Term)
    requires
        phrase(t, term),
        (c == '-' && whole == Term::Negative(Box::new(term))) || (c == '!' && whole == Term::Not(
            Box::new(term),
        )),
    ensures
        passage(seq![c] + t, whole),
{
    let u = seq![c] + t;
    assert forall|s: Seq<char>, i: nat|
        #![trigger at(s, i, u)]
        at(s, i, u) && ends(s, i + u.len()) implies reading::expression(s, i, 1) == Some(
        (whole, i + u.len()),
    ) && !at(s, i, seq!['i', 'n', 't', ')']) by {
        at_parts(s, i, seq![c], t);
        at_char(s, i, seq![c], 0);
        at_char(s, i + 1, t, 0);
        assert(closes(s, i + 1 + t.len()));
        assert(reading::operand(s, i + 1) == Some((term, i + u.len())));
        assert(reading::operand(s, i) == Some((whole, i + u.len())));
        stops(s, whole, i + u.len(), 1);
        let bare = seq!['i', 'n', 't', ')'];
        if at(s, i, bare) {
            at_char(s, i, bare, 0);
        }
    }
}

/// A cast of a term is a term.
pub proof fn cast_phrase(t: Seq<char>, term: Term)
    requires
        phrase(t, term),
    ensures
        phrase(seq!['(', 'i', 'n', 't', ')'] + t, Term::Whole(Box::new(term))),
{
    let cast = seq!['(', 'i', 'n', 't', ')'];
    let u = cast + t;
    let whole = Term::Whole(Box::new(term));
    assert(u[0] == '(');
    assert forall|s: Seq<char>, i: nat|
        #![trigger at(s, i, u)]
        at(s, i, u) && closes(s, i + u.len()) implies reading::operand(s, i) == Some(
        (whole, i + u.len()),
    ) && !at(s, i, seq!['i', 'n', 't', ')']) by {
        at_parts(s, i, cast, t);
        at_char(s, i, cast, 0);
        assert(reading::operand(s, i + 5) == Some((term, i + u.len())));
        let bare = seq!['i', 'n', 't', ')'];
        if at(s, i, bare) {
            at_char(s, i, bare, 0);
        }
    }
}

/// An element of an array is a term.
pub proof fn element_phrase(n: Seq<char>, t: Seq<char>, term: Term)
    requires
        is_name(n),
        passage(t, term),
    ensures
        phrase(
            n + seq!['['] + t + seq![']'],
            Term::Element(Box::new(Term::Name(n)), Box::new(term)),
        ),
{
    let u = n + seq!['['] + t + seq![']'];
    let whole = Term::Element(Box::new(Term::Name(n)), Box::new(term));
    assert(u[0] == n[0]);
    assert forall|s: Seq<char>, i: nat|
        #![trigger at(s, i, u)]
        at(s, i, u) && closes(s, i + u.len()) implies reading::operand(s, i) == Some(
        (whole, i + u.len()),
    ) && !at(s, i, seq!['i', 'n', 't', ')']) by {
        at_parts(s, i, n + seq!['['] + t, seq![']']);
        at_parts(s, i, n + seq!['['], t);
        at_parts(s, i, n, seq!['[']);
        let j = i + n.len();
        at_char(s, j, seq!['['], 0);
        name_read(s, i, n);
        element_read(s, Term::Name(n), j, t, term);
        assert(reading::selected(s, whole, i + u.len()) == Some((whole, i + u.len())));
    }
}

/// What is selected at an index is read.
proof fn element_read(s: Seq<char>, of: Term, j: nat, t: Seq<char>, term: Term)
    requires
        passage(t, term),
        j < s.len(),
        s[j as int] == '[',
        at(s, j + 1, t),
        at(s, j + 1 + t.len(), seq![']']),
    ensures
        reading::selected(s, of, j) == reading::selected(
            s,
            Term::Element(Box::new(of), Box::new(term)),
            j + 2 + t.len(),
        ),
{
    at_char(s, j + 1 + t.len(), seq![']'], 0);
    assert(ends(s, j + 1 + t.len()));
    assert(reading::expression(s, j + 1, 1) == Some((term, j + 1 + t.len())));
}

/// A member of a structure is a term.
pub proof fn member_phrase(n: Seq<char>, x: Seq<char>)
    requires
        is_name(n),
        reading::is_word(x),
    ensures
        phrase(n + seq!['.'] + x, Term::Member(Box::new(Term::Name(n)), x)),
{
    let u = n + seq!['.'] + x;
    let whole = Term::Member(Box::new(Term::Name(n)), x);
    assert(u[0] == n[0]);
    assert forall|s: Seq<char>, i: nat|
        #![trigger at(s, i, u)]
        at(s, i, u) && closes(s, i + u.len()) implies reading::operand(s, i) == Some(
        (whole, i + u.len()),
    ) && !at(s, i, seq!['i', 'n', 't', ')']) by {
        at_parts(s, i, n + seq!['.'], x);
        at_parts(s, i, n, seq!['.']);
        member_read(s, i, n, x);
        assert(reading::selected(s, whole, i + u.len()) == Some((whole, i + u.len())));
    }
}

proof fn member_read(s: Seq<char>, i: nat, n: Seq<char>, x: Seq<char>)
    requires
        is_name(n),
        reading::is_word(x),
        at(s, i, n),
        at(s, i + n.len(), seq!['.']),
        at(s, i + n.len() + 1, x),
        i + n.len() + 1 + x.len() < s.len() ==> !reading::is_word_char(
            s[(i + n.len() + 1 + x.len()) as int],
        ),
    ensures
        reading::operand(s, i) == reading::selected(
            s,
            Term::Member(Box::new(Term::Name(n)), x),
            i + n.len() + 1 + x.len(),
        ),
        !at(s, i, seq!['i', 'n', 't', ')']),
{
    let j = i + n.len();
    at_char(s, j, seq!['.'], 0);
    name_read(s, i, n);
    word_ends(s, j + 1, x, 0);
}

/// An element of a member of a structure is a term.
pub proof fn member_element_phrase(n: Seq<char>, x: Seq<char>, t: Seq<char>, term: Term)
    requires
        is_name(n),
        reading::is_word(x),
        passage(t, term),
    ensures
        phrase(
            n + seq!['.'] + x + seq!['['] + t + seq![']'],
            Term::Element(
                Box::new(Term::Member(Box::new(Term::Name(n)), x)),
                Box::new(term),
            ),
        ),
{
    let u = n + seq!['.'] + x + seq!['['] + t + seq![']'];
    let of = Term::Member(Box::new(Term::Name(n)), x);
    let whole = Term::Element(Box::new(of), Box::new(term));
    assert(u[0] == n[0]);
    assert forall|s: Seq<char>, i: nat|
        #![trigger at(s, i, u)]
        at(s, i, u) && closes(s, i + u.len()) implies reading::operand(s, i) == Some(
        (whole, i + u.len()),
    ) && !at(s, i, seq!['i', 'n', 't', ')']) by {
        at_parts(s, i, n + seq!['.'] + x + seq!['['] + t, seq![']']);
        at_parts(s, i, n + seq!['.'] + x + seq!['['], t);
        at_parts(s, i, n + seq!['.'] + x, seq!['[']);
        at_parts(s, i, n + seq!['.'], x);
        at_parts(s, i, n, seq!['.']);
        let j = i + n.len() + 1 + x.len();
        at_char(s, j, seq!['['], 0);
        member_read(s, i, n, x);
        element_read(s, of, j, t, term);
        assert(reading::selected(s, whole, i + u.len()) == Some((whole, i + u.len())));
    }
}

/// A call on one argument is a term.
pub proof fn call_phrase(f: Seq<char>, t: Seq<char>, term: Term)
    requires
        is_name(f),
        passage(t, term),
        t[0] != ')',
    ensures
        phrase(f + seq!['('] + t + seq![')'], Term::Apply(f, seq![term])),
{
    let u = f + seq!['('] + t + seq![')'];
    let whole = Term::Apply(f, seq![term]);
    assert(u[0] == f[0]);
    assert forall|s: Seq<char>, i: nat|
        #![trigger at(s, i, u)]
        at(s, i, u) && closes(s, i + u.len()) implies reading::operand(s, i) == Some(
        (whole, i + u.len()),
    ) && !at(s, i, seq!['i', 'n', 't', ')']) by {
        at_parts(s, i, f + seq!['('] + t, seq![')']);
        at_parts(s, i, f + seq!['('], t);
        at_parts(s, i, f, seq!['(']);
        let j = i + f.len();
        at_char(s, j, seq!['('], 0);
        at_char(s, j + 1, t, 0);
        at_char(s, j + 1 + t.len(), seq![')'], 0);
        assert(ends(s, j + 1 + t.len()));
        assert(Seq::<Term>::empty().push(term) =~= seq![term]);
        assert(reading::arguments(s, j + 1, Seq::empty()) == Some((seq![term], i + u.len())));
        call_read(s, i, f);
        assert(reading::selected(s, whole, i + u.len()) == Some((whole, i + u.len())));
    }
}

/// A call on two arguments is a term.
pub proof fn call2_phrase(f: Seq<char>, t: Seq<char>, term: Term, t2: Seq<char>, term2: Term)
    requires
        is_name(f),
        passage(t, term),
        passage(t2, term2),
        t[0] != ')',
    ensures
        phrase(
            f + seq!['('] + t + seq![',', ' '] + t2 + seq![')'],
            Term::Apply(f, seq![term, term2]),
        ),
{
    let u = f + seq!['('] + t + seq![',', ' '] + t2 + seq![')'];
    let whole = Term::Apply(f, seq![term, term2]);
    assert(u[0] == f[0]);
    assert forall|s: Seq<char>, i: nat|
        #![trigger at(s, i, u)]
        at(s, i, u) && closes(s, i + u.len()) implies reading::operand(s, i) == Some(
        (whole, i + u.len()),
    ) && !at(s, i, seq!['i', 'n', 't', ')']) by {
        at_parts(s, i, f + seq!['('] + t + seq![',', ' '] + t2, seq![')']);
        at_parts(s, i, f + seq!['('] + t + seq![',', ' '], t2);
        at_parts(s, i, f + seq!['('] + t, seq![',', ' ']);
        at_parts(s, i, f + seq!['('], t);
        at_parts(s, i, f, seq!['(']);
        let j = i + f.len();
        let k = j + 1 + t.len();
        at_char(s, j, seq!['('], 0);
        at_char(s, j + 1, t, 0);
        at_char(s, k, seq![',', ' '], 0);
        at_char(s, k, seq![',', ' '], 1);
        at_char(s, k + 2, t2, 0);
        at_char(s, k + 2 + t2.len(), seq![')'], 0);
        assert(ends(s, k));
        assert(ends(s, k + 2 + t2.len()));
        let one = Seq::<Term>::empty().push(term);
        assert(one.push(term2) =~= seq![term, term2]);
        assert(reading::arguments(s, k + 2, one) == Some((seq![term, term2], i + u.len())));
        assert(reading::arguments(s, j + 1, Seq::empty()) == reading::arguments(s, k + 2, one));
        call_read(s, i, f);
        assert(reading::selected(s, whole, i + u.len()) == Some((whole, i + u.len())));
    }
}

/// The arguments of a call are read.
proof fn call_read(s: Seq<char>, i: nat, f: Seq<char>)
    requires
        is_name(f),
        at(s, i, f),
        i + f.len() < s.len(),
        s[(i + f.len()) as int] == '(',
    ensures
        reading::operand(s, i) == match reading::arguments(s, i + f.len() + 1, Seq::empty()) {
            Some((ts, k)) => if i < k <= s.len() {
                reading::selected(s, Term::Apply(f, ts), k)
            } else {
                None
            },
            None => None,
        },
        !at(s, i, seq!['i', 'n', 't', ')']),
{
    no_cast(s, i, f);
    word_ends(s, i, f, 0);
    at_char(s, i, f, 0);
    let cast = seq!['(', 'i', 'n', 't', ')'];
    if at(s, i, cast) {
        at_char(s, i, cast, 0);
    }
}

/// An expression that is a whole text is read.
pub proof fn passage_read(t: Seq<char>, term: Term)
    requires
        passage(t, term),
    ensures
        reading::read(t) == Some(term),
{
    assert(t.subrange(0, t.len() as int) =~= t);
    assert(at(t, 0, t));
    assert(ends(t, t.len()));
}

/// Whether a text stands inside another, as far as its characters from a
/// position on go.
pub open spec fn inside_from(t: Seq<char>, k: nat, u: Seq<char>, i: nat) -> bool
    decreases u.len() - i,
{
    i >= u.len() || (k + i < t.len() && t[(k + i) as int] == u[i as int] && inside_from(
        t,
        k,
        u,
        i + 1,
    ))
}

proof fn inside_char(t: Seq<char>, k: nat, u: Seq<char>, i: nat, j: nat)
    requires
        inside_from(t, k, u, i),
        i <= j < u.len(),
    ensures
        k + j < t.len(),
        t[(k + j) as int] == u[j as int],
    decreases j - i,
{
    if i < j {
        inside_char(t, k, u, i + 1, j);
    }
}

/// What stands inside a text stands where that text does.
pub proof fn at_inside(s: Seq<char>, i: nat, t: Seq<char>, k: nat, u: Seq<char>)
    requires
        at(s, i, t),
        u.len() > 0,
        inside_from(t, k, u, 0),
    ensures
        at(s, i + k, u),
{
    inside_char(t, k, u, 0, (u.len() - 1) as nat);
    assert forall|j: int| 0 <= j < u.len() implies s.subrange(
        (i + k) as int,
        (i + k + u.len()) as int,
    )[j] == u[j] by {
        inside_char(t, k, u, 0, j as nat);
        at_char(s, i, t, k + j);
    }
    assert(s.subrange((i + k) as int, (i + k + u.len()) as int) =~= u);
}

/// Parts of a text that stand one behind the other stand there together.
pub proof fn at_together(s: Seq<char>, i: nat, a: Seq<char>, b: Seq<char>)
    requires
        at(s, i, a),
        at(s, i + a.len(), b),
    ensures
        at(s, i, a + b),
{
    assert forall|k: int| 0 <= k < a.len() + b.len() implies s.subrange(
        i as int,
        (i + a.len() + b.len()) as int,
    )[k] == (a + b)[k] by {
        if k < a.len() {
            at_char(s, i, a, k);
        } else {
            at_char(s, i + a.len(), b, k - a.len());
        }
    }
    assert(s.subrange(i as int, (i + a.len() + b.len()) as int) =~= a + b);
}

/// A statement that writes an element of the output.
pub proof fn write_read(
    s: Seq<char>,
    p: nat,
    b: nat,
    f: Seq<char>,
    term: Term,
    n: Numbers,
    scope: Scope,
)
    requires
        p <= b,
        reading::behind_space(s, p) == b,
        at(s, b, "out[tid] = "@ + f + ";"@),
        passage(f, term),
    ensures
        ({
            let rest = reading::writes(s, b + 12 + f.len(), n, scope);
            reading::writes(s, p, n, scope) == match (term.value(n, scope), rest) {
                (Some(y), Some(rest)) => Some(seq![((scope.value)("tid"@), y)] + rest),
                _ => None,
            }
        }),
{
    reveal_strlit("out[tid] = ");
    reveal_strlit(";");
    reveal_strlit("tid");
    let head = "out[tid] = "@;
    at_parts(s, b, head + f, ";"@);
    at_parts(s, b, head, f);
    let out = seq!['o', 'u', 't'];
    let tid = seq!['t', 'i', 'd'];
    let gap = seq![']', ' ', '=', ' '];
    assert(at(s, b, out) && at(s, b + 4, tid) && at(s, b + 7, gap)) by {
        reveal_with_fuel(inside_from, 5);
        at_inside(s, b, head, 0, out);
        at_inside(s, b, head, 4, tid);
        at_inside(s, b, head, 7, gap);
    }
    at_char(s, b, head, 0);
    at_char(s, b, head, 3);
    at_char(s, b, head, 7);
    word_ends(s, b, out, 0);
    assert(tid =~= "tid"@);
    name_phrase(tid);
    phrase_passage(tid, Term::Name(tid));
    assert(ends(s, b + 7));
    assert(reading::expression(s, b + 4, 1) == Some((Term::Name(tid), b + 7)));
    let e = b + 11 + f.len();
    at_char(s, e, ";"@, 0);
    assert(ends(s, e));
    assert(at(s, b + 11, f));
    assert(reading::expression(s, b + 11, 1) == Some((term, e)));
    assert(Term::Name(tid).value(n, scope) == Some((scope.value)(tid)));
}

/// The end of a kernel.
pub proof fn end_read(s: Seq<char>, p: nat, n: Numbers, scope: Scope)
    requires
        at(s, p, "\n}"@),
    ensures
        reading::writes(s, p, n, scope) == Some(Seq::<(int, int)>::empty()),
{
    reveal_strlit("\n}");
    at_char(s, p, "\n}"@, 0);
    at_char(s, p, "\n}"@, 1);
    reveal_with_fuel(reading::behind_space, 3);
}

/// Where the parts of a text stand.
pub proof fn parts_stand(a: Seq<char>, b: Seq<char>, c: Seq<char>, f: Seq<char>, d: Seq<char>)
    ensures
        ({
            let s = a + b + c + f + d;
            let i = (a + b).len();
            &&& at(s, i, c)
            &&& at(s, i + c.len(), f)
            &&& at(s, i + c.len() + f.len(), d)
        }),
{
    let s = a + b + c + f + d;
    assert(s.subrange(0, s.len() as int) =~= s);
    assert(at(s, 0, s));
    at_parts(s, 0, a + b + c + f, d);
    at_parts(s, 0, a + b + c, f);
    at_parts(s, 0, a + b, c);
}

/// The value of an operator between two terms.
pub proof fn infix_value(op: Infix, l: Term, r: Term, n: Numbers, scope: Scope)
    ensures
        Term::Infix(op, Box::new(l), Box::new(r)).value(n, scope) == match (
            l.value(n, scope),
            r.value(n, scope),
        ) {
            (Some(a), Some(b)) => Some(op.on(n, a, b)),
            _ => None,
        },
{
}

} // verus!
