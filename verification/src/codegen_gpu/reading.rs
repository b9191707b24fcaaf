//! How the expressions of kernel sources are read: the grammar of the kernel
//! language, from characters to terms, and what terms mean.

use crate::numbers;
use crate::numbers::Numbers;
use vstd::prelude::*;

verus! {

/// Infix operators of the kernel language.
pub enum Infix {
    Plus,
    Minus,
    Times,
    Over,
    Equal,
    Unequal,
    Below,
    AtMost,
    Above,
    AtLeast,
    Both,
    Either,
}

/// Expressions of the kernel language.
pub enum Term {
    /// A decimal text with a fraction or an exponent.
    Decimal(Seq<char>),
    /// A row of digits.
    Digits(Seq<char>),
    Name(Seq<char>),
    Member(Box<Term>, Seq<char>),
    Element(Box<Term>, Box<Term>),
    Apply(Seq<char>, Seq<Term>),
    Negative(Box<Term>),
    Not(Box<Term>),
    /// A cast to an integer.
    Whole(Box<Term>),
    Infix(Infix, Box<Term>, Box<Term>),
}

pub open spec fn is_letter(c: char) -> bool {
    'a' <= c <= 'z' || 'A' <= c <= 'Z' || c == '_'
}

pub open spec fn is_digit(c: char) -> bool {
    '0' <= c <= '9'
}

pub open spec fn is_word_char(c: char) -> bool {
    is_letter(c) || is_digit(c)
}

/// Names: letters and digits that begin with a letter.
pub open spec fn is_word(n: Seq<char>) -> bool {
    &&& n.len() > 0
    &&& is_letter(n[0])
    &&& forall|i: int| 0 <= i < n.len() ==> is_word_char(#[trigger] n[i])
}

/// Whether a number goes on with the character at a position: digits, a point,
/// an exponent and its sign.
pub open spec fn number_goes_on(s: Seq<char>, i: int) -> bool {
    is_digit(s[i]) || s[i] == '.' || s[i] == 'e' || (s[i] == '-' && i > 0 && s[i - 1] == 'e')
}

/// Numbers as they are written with a fraction or an exponent.
pub open spec fn is_number(n: Seq<char>) -> bool {
    &&& n.len() > 0
    &&& is_digit(n[0])
    &&& forall|i: int| 0 <= i < n.len() ==> #[trigger] number_goes_on(n, i)
}

/// Where the word that goes on at a position ends.
pub open spec fn word_end(s: Seq<char>, i: nat) -> nat
    decreases s.len() - i,
{
    if i < s.len() && is_word_char(s[i as int]) {
        word_end(s, i + 1)
    } else {
        i
    }
}

/// Where the number that goes on at a position ends.
pub open spec fn number_end(s: Seq<char>, i: nat) -> nat
    decreases s.len() - i,
{
    if i < s.len() && number_goes_on(s, i as int) {
        number_end(s, i + 1)
    } else {
        i
    }
}

/// Whether a text stands at a position.
pub open spec fn at(s: Seq<char>, i: nat, t: Seq<char>) -> bool {
    i + t.len() <= s.len() && s.subrange(i as int, (i + t.len()) as int) == t
}

/// The infix operator at a position, and where it ends. Where one operator
/// begins another, the longer one is read.
pub open spec fn operator(s: Seq<char>, i: nat) -> Option<(Infix, nat)> {
    if i >= s.len() {
        None
    } else {
        let c = s[i as int];
        let d = if i + 1 < s.len() {
            s[i as int + 1]
        } else {
            ' '
        };
        if c == '+' {
            Some((Infix::Plus, i + 1))
        } else if c == '-' {
            Some((Infix::Minus, i + 1))
        } else if c == '*' {
            Some((Infix::Times, i + 1))
        } else if c == '/' {
            Some((Infix::Over, i + 1))
        } else if c == '=' && d == '=' {
            Some((Infix::Equal, i + 2))
        } else if c == '!' && d == '=' {
            Some((Infix::Unequal, i + 2))
        } else if c == '<' && d == '=' {
            Some((Infix::AtMost, i + 2))
        } else if c == '<' {
            Some((Infix::Below, i + 1))
        } else if c == '>' && d == '=' {
            Some((Infix::AtLeast, i + 2))
        } else if c == '>' {
            Some((Infix::Above, i + 1))
        } else if c == '&' && d == '&' {
            Some((Infix::Both, i + 2))
        } else if c == '|' && d == '|' {
            Some((Infix::Either, i + 2))
        } else {
            None
        }
    }
}

impl Infix {
    /// How tightly an operator binds.
    pub open spec fn strength(self) -> nat {
        match self {
            Infix::Either => 1,
            Infix::Both => 2,
            Infix::Equal | Infix::Unequal => 3,
            Infix::Below | Infix::AtMost | Infix::Above | Infix::AtLeast => 4,
            Infix::Plus | Infix::Minus => 5,
            Infix::Times | Infix::Over => 6,
        }
    }

    /// What an operator gives on two numbers.
    pub open spec fn on(self, n: Numbers, a: int, b: int) -> int {
        match self {
            Infix::Plus => (n.sum)(a, b),
            Infix::Minus => (n.difference)(a, b),
            Infix::Times => (n.product)(a, b),
            Infix::Over => (n.quotient)(a, b),
            Infix::Equal => (n.truth)((n.same)(a, b)),
            Infix::Unequal => (n.truth)(!(n.same)(a, b)),
            Infix::Below => (n.truth)((n.less)(a, b)),
            Infix::AtMost => (n.truth)((n.at_most)(a, b)),
            Infix::Above => (n.truth)((n.less)(b, a)),
            Infix::AtLeast => (n.truth)((n.at_most)(b, a)),
            Infix::Both => (n.truth)((n.holds)(a) && (n.holds)(b)),
            Infix::Either => (n.truth)((n.holds)(a) || (n.holds)(b)),
        }
    }
}

/// Behind a blank, if there is one.
pub open spec fn behind_blank(s: Seq<char>, i: nat) -> nat {
    if i < s.len() && s[i as int] == ' ' {
        i + 1
    } else {
        i
    }
}

/// A term without infix operators at a position, and where it ends.
pub open spec fn operand(s: Seq<char>, i: nat) -> Option<(Term, nat)>
    decreases s.len() - i, 1nat,
{
    if i >= s.len() {
        None
    } else {
        let c = s[i as int];
        if c == '-' || c == '!' {
            match operand(s, i + 1) {
                Some((t, j)) => if c == '!' {
                    Some((Term::Not(Box::new(t)), j))
                } else if s[i as int + 1] == '-' {
                    None
                } else {
                    Some((Term::Negative(Box::new(t)), j))
                },
                None => None,
            }
        } else if at(s, i, seq!['(', 'i', 'n', 't', ')']) {
            match operand(s, i + 5) {
                Some((t, j)) => Some((Term::Whole(Box::new(t)), j)),
                None => None,
            }
        } else if c == '(' {
            match expression(s, i + 1, 1) {
                Some((t, j)) => if i < j < s.len() && s[j as int] == ')' {
                    selected(s, t, j + 1)
                } else {
                    None
                },
                None => None,
            }
        } else if is_digit(c) {
            let j = number_end(s, i);
            let text = s.subrange(i as int, j as int);
            if j < s.len() && s[j as int] == 'f' {
                Some((Term::Decimal(text), j + 1))
            } else {
                Some((Term::Digits(text), j))
            }
        } else if is_letter(c) {
            let j = word_end(s, i);
            let name = s.subrange(i as int, j as int);
            if i < j < s.len() && s[j as int] == '(' {
                match arguments(s, j + 1, Seq::empty()) {
                    Some((ts, k)) => if i < k <= s.len() {
                        selected(s, Term::Apply(name, ts), k)
                    } else {
                        None
                    },
                    None => None,
                }
            } else if i < j <= s.len() {
                selected(s, Term::Name(name), j)
            } else {
                None
            }
        } else {
            None
        }
    }
}

/// Elements and members that are selected from a term.
pub open spec fn selected(s: Seq<char>, t: Term, i: nat) -> Option<(Term, nat)>
    decreases s.len() - i, 0nat,
{
    if i >= s.len() {
        Some((t, i))
    } else if s[i as int] == '[' {
        match expression(s, i + 1, 1) {
            Some((x, j)) => if i < j < s.len() && s[j as int] == ']' {
                selected(s, Term::Element(Box::new(t), Box::new(x)), j + 1)
            } else {
                None
            },
            None => None,
        }
    } else if s[i as int] == '.' {
        let j = word_end(s, i + 1);
        if i + 1 < j <= s.len() {
            selected(s, Term::Member(Box::new(t), s.subrange(i as int + 1, j as int)), j)
        } else {
            None
        }
    } else {
        Some((t, i))
    }
}

/// Arguments up to a closing bracket.
pub open spec fn arguments(s: Seq<char>, i: nat, done: Seq<Term>) -> Option<(Seq<Term>, nat)>
    decreases s.len() - i, 3nat,
{
    if i >= s.len() {
        None
    } else if s[i as int] == ')' && done.len() == 0 {
        Some((done, i + 1))
    } else {
        match expression(s, i, 1) {
            Some((t, j)) => if !(i < j < s.len()) {
                None
            } else if s[j as int] == ')' {
                Some((done.push(t), j + 1))
            } else if s[j as int] == ',' && behind_blank(s, j + 1) < s.len() {
                arguments(s, behind_blank(s, j + 1), done.push(t))
            } else {
                None
            },
            None => None,
        }
    }
}

/// An expression at a position whose operators bind at least so tightly.
pub open spec fn expression(s: Seq<char>, i: nat, least: nat) -> Option<(Term, nat)>
    decreases s.len() - i, 2nat,
{
    if i >= s.len() {
        None
    } else {
        match operand(s, i) {
            Some((l, j)) => if i < j <= s.len() {
                operators(s, l, j, least)
            } else {
                None
            },
            None => None,
        }
    }
}

/// Operators behind a term, as long as they bind at least so tightly.
pub open spec fn operators(s: Seq<char>, l: Term, i: nat, least: nat) -> Option<(Term, nat)>
    decreases s.len() - i, 0nat,
{
    if i >= s.len() {
        Some((l, i))
    } else {
        match operator(s, behind_blank(s, i)) {
            Some((op, j)) => if op.strength() < least {
                Some((l, i))
            } else if behind_blank(s, j) > s.len() {
                None
            } else {
                match expression(s, behind_blank(s, j), op.strength() + 1) {
                    Some((r, k)) => if i < k <= s.len() {
                        operators(s, Term::Infix(op, Box::new(l), Box::new(r)), k, least)
                    } else {
                        None
                    },
                    None => None,
                }
            },
            None => Some((l, i)),
        }
    }
}

/// The expression that a whole text is.
pub open spec fn read(s: Seq<char>) -> Option<Term> {
    match expression(s, 0, 1) {
        Some((t, j)) => if j == s.len() {
            Some(t)
        } else {
            None
        },
        None => None,
    }
}

/// What the names of a kernel stand for.
pub struct Scope {
    /// Values of names.
    pub value: spec_fn(Seq<char>) -> int,
    /// Elements of arrays.
    pub element: spec_fn(Seq<char>, int) -> int,
    /// Members of structures, and elements of those.
    pub member: spec_fn(Seq<char>, Seq<char>) -> int,
    pub member_element: spec_fn(Seq<char>, Seq<char>, int) -> int,
}

/// What a function of the kernel language gives on its arguments.
pub open spec fn applied(n: Numbers, f: Seq<char>, xs: Seq<int>) -> Option<int> {
    if xs.len() == 1 {
        if f == seq!['e', 'x', 'p'] {
            Some((n.exp)(xs[0]))
        } else if f == seq!['l', 'o', 'g'] {
            Some((n.log)(xs[0]))
        } else if f == seq!['s', 'q', 'r', 't'] {
            Some((n.sqrt)(xs[0]))
        } else if f == seq!['r', 's', 'q', 'r', 't'] {
            Some((n.rsqrt)(xs[0]))
        } else if f == seq!['t', 'a', 'n', 'h'] {
            Some((n.tanh)(xs[0]))
        } else if f == seq!['f', 'a', 'b', 's'] {
            Some(n.magnitude(xs[0]))
        } else {
            None
        }
    } else if xs.len() == 2 {
        if f == seq!['f', 'm', 'a', 'x'] {
            Some(n.larger(xs[0], xs[1]))
        } else if f == seq!['f', 'm', 'i', 'n'] {
            Some(n.smaller(xs[0], xs[1]))
        } else if f == seq!['p', 'o', 'w'] {
            Some((n.power)(xs[0], xs[1]))
        } else {
            None
        }
    } else {
        None
    }
}

impl Term {
    /// The value of a term.
    pub open spec fn value(self, n: Numbers, scope: Scope) -> Option<int>
        decreases self, 0nat,
    {
        match self {
            Term::Decimal(text) => Some((n.decimal)(text)),
            Term::Digits(text) => Some((n.integer)(numbers::digits_value(text))),
            Term::Name(x) => if x == seq!['t', 'r', 'u', 'e'] {
                Some((n.truth)(true))
            } else if x == seq!['f', 'a', 'l', 's', 'e'] {
                Some((n.truth)(false))
            } else {
                Some((scope.value)(x))
            },
            Term::Member(of, x) => match *of {
                Term::Name(y) => Some((scope.member)(y, x)),
                _ => None,
            },
            Term::Element(of, i) => match i.value(n, scope) {
                Some(k) => match *of {
                    Term::Name(y) => Some((scope.element)(y, k)),
                    Term::Member(y, x) => match *y {
                        Term::Name(z) => Some((scope.member_element)(z, x, k)),
                        _ => None,
                    },
                    _ => None,
                },
                None => None,
            },
            Term::Apply(f, ts) => match values(ts, ts.len(), n, scope) {
                Some(xs) => applied(n, f, xs),
                None => None,
            },
            Term::Negative(t) => match t.value(n, scope) {
                Some(x) => Some((n.negative)(x)),
                None => None,
            },
            Term::Not(t) => match t.value(n, scope) {
                Some(x) => Some((n.truth)(!(n.holds)(x))),
                None => None,
            },
            Term::Whole(t) => match t.value(n, scope) {
                Some(x) => Some((n.whole)(x)),
                None => None,
            },
            Term::Infix(op, l, r) => match (l.value(n, scope), r.value(n, scope)) {
                (Some(a), Some(b)) => Some(op.on(n, a, b)),
                _ => None,
            },
        }
    }
}

/// The values of the first `k` terms.
pub open spec fn values(ts: Seq<Term>, k: nat, n: Numbers, scope: Scope) -> Option<Seq<int>>
    decreases ts, k,
{
    if k == 0 {
        Some(Seq::empty())
    } else if k > ts.len() {
        None
    } else {
        match (values(ts, (k - 1) as nat, n, scope), ts[k - 1].value(n, scope)) {
            (Some(xs), Some(x)) => Some(xs.push(x)),
            _ => None,
        }
    }
}

impl Scope {
    /// With one more name.
    pub open spec fn with(self, name: Seq<char>, x: int) -> Scope {
        Scope {
            value: |n: Seq<char>|
                if n == name {
                    x
                } else {
                    (self.value)(n)
                },
            ..self
        }
    }
}

/// Behind blanks and line ends.
pub open spec fn behind_space(s: Seq<char>, i: nat) -> nat
    decreases s.len() - i,
{
    if i < s.len() && (s[i as int] == ' ' || s[i as int] == '\n') {
        behind_space(s, i + 1)
    } else {
        i
    }
}

/// What the statements from a position on write to the output, up to the
/// closing brace: positions and values. A statement either declares a name
/// with its type and value, or writes an element of `out`.
pub open spec fn writes(s: Seq<char>, i: nat, n: Numbers, scope: Scope) -> Option<Seq<(int, int)>>
    decreases s.len() - i,
{
    let b = behind_space(s, i);
    let j = word_end(s, b);
    if !(i <= b < s.len()) {
        None
    } else if s[b as int] == '}' {
        Some(Seq::empty())
    } else if !(b < j < s.len()) {
        None
    } else if s[j as int] == '[' && s.subrange(b as int, j as int) == seq!['o', 'u', 't'] {
        match expression(s, j + 1, 1) {
            Some((x, k)) => if j < k && at(s, k, seq![']', ' ', '=', ' ']) {
                match expression(s, k + 4, 1) {
                    Some((v, e)) => if k < e < s.len() && s[e as int] == ';' {
                        match (x.value(n, scope), v.value(n, scope), writes(s, e + 1, n, scope)) {
                            (Some(p), Some(y), Some(rest)) => Some(seq![(p, y)] + rest),
                            _ => None,
                        }
                    } else {
                        None
                    },
                    None => None,
                }
            } else {
                None
            },
            None => None,
        }
    } else if s[j as int] == ' ' {
        let k = word_end(s, j + 1);
        if j + 1 < k && at(s, k, seq![' ', '=', ' ']) {
            match expression(s, k + 3, 1) {
                Some((v, e)) => if k < e < s.len() && s[e as int] == ';' {
                    match v.value(n, scope) {
                        Some(y) => writes(
                            s,
                            e + 1,
                            n,
                            scope.with(s.subrange(j as int + 1, k as int), y),
                        ),
                        None => None,
                    }
                } else {
                    None
                },
                None => None,
            }
        } else {
            None
        }
    } else {
        None
    }
}

/// Whether a kernel takes an array from the buffer with a number.
pub open spec fn declares(s: Seq<char>, name: Seq<char>, buffer: nat) -> bool {
    exists|i: nat| #[trigger]
        at(s, i, "* "@ + name + " [[buffer("@ + crate::text::decimal(buffer) + ")]]"@)
}

/// Whether a kernel has a name for the position of its thread.
pub open spec fn declares_position(s: Seq<char>, name: Seq<char>) -> bool {
    exists|i: nat| #[trigger] at(s, i, "uint "@ + name + " [[thread_position_in_grid]]"@)
}

/// Whether a kernel, run with some names, writes some values to its output.
pub open spec fn outputs(s: Seq<char>, n: Numbers, scope: Scope, out: Seq<(int, int)>) -> bool {
    exists|i: nat| #[trigger] at(s, i, "\n) {\n"@) && writes(s, i + 5, n, scope) == Some(out)
}

} // verus!
