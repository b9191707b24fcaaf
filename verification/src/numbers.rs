//! Arithmetic that programs refer to, left open: any operations may stand for
//! the sums, products, comparisons and functions of the numbers at hand.

use crate::typed::{BinOp, UnaryOp};
use vstd::prelude::*;

verus! {

/// Operations on numbers. A number is known by an integer, such as its bit
/// pattern.
pub struct Numbers {
    pub sum: spec_fn(int, int) -> int,
    pub difference: spec_fn(int, int) -> int,
    pub product: spec_fn(int, int) -> int,
    pub quotient: spec_fn(int, int) -> int,
    pub power: spec_fn(int, int) -> int,
    pub negative: spec_fn(int) -> int,
    pub exp: spec_fn(int) -> int,
    pub log: spec_fn(int) -> int,
    pub sqrt: spec_fn(int) -> int,
    pub rsqrt: spec_fn(int) -> int,
    pub tanh: spec_fn(int) -> int,
    /// Rounds to an integer.
    pub whole: spec_fn(int) -> int,
    pub same: spec_fn(int, int) -> bool,
    pub less: spec_fn(int, int) -> bool,
    pub at_most: spec_fn(int, int) -> bool,
    /// The number that stands for a truth value, and the truth value of a
    /// number.
    pub truth: spec_fn(bool) -> int,
    pub holds: spec_fn(int) -> bool,
    /// The number that an integer is.
    pub integer: spec_fn(int) -> int,
    /// The number that a decimal text with a fraction or an exponent is.
    pub decimal: spec_fn(Seq<char>) -> int,
}

impl Numbers {
    pub open spec fn zero(self) -> int {
        (self.decimal)("0.0"@)
    }

    pub open spec fn one(self) -> int {
        (self.decimal)("1.0"@)
    }

    /// The larger of two numbers.
    pub open spec fn larger(self, a: int, b: int) -> int {
        if (self.less)(a, b) {
            b
        } else {
            a
        }
    }

    /// The smaller of two numbers.
    pub open spec fn smaller(self, a: int, b: int) -> int {
        if (self.less)(b, a) {
            b
        } else {
            a
        }
    }

    /// A number without its sign.
    pub open spec fn magnitude(self, a: int) -> int {
        if (self.less)(a, self.zero()) {
            (self.negative)(a)
        } else {
            a
        }
    }

    /// `1 / (1 + exp(-a))`.
    pub open spec fn logistic(self, a: int) -> int {
        (self.quotient)(self.one(), (self.sum)(self.one(), (self.exp)((self.negative)(a))))
    }
}

impl BinOp {
    /// What an operator of the language gives on two numbers.
    pub open spec fn on(self, n: Numbers, a: int, b: int) -> Option<int> {
        match self {
            BinOp::Add => Some((n.sum)(a, b)),
            BinOp::Sub => Some((n.difference)(a, b)),
            BinOp::Mul => Some((n.product)(a, b)),
            BinOp::Div => Some((n.quotient)(a, b)),
            BinOp::Pow => Some((n.power)(a, b)),
            BinOp::Eq | BinOp::NotEq | BinOp::Lt | BinOp::LtEq | BinOp::Gt | BinOp::GtEq => Some(
                (n.truth)(self.relates(n, a, b)->0),
            ),
            BinOp::And => Some((n.truth)((n.holds)(a) && (n.holds)(b))),
            BinOp::Or => Some((n.truth)((n.holds)(a) || (n.holds)(b))),
            BinOp::Matmul => None,
        }
    }
}

impl BinOp {
    /// Whether a comparison of two numbers holds.
    pub open spec fn relates(self, n: Numbers, a: int, b: int) -> Option<bool> {
        match self {
            BinOp::Eq => Some((n.same)(a, b)),
            BinOp::NotEq => Some(!(n.same)(a, b)),
            BinOp::Lt => Some((n.less)(a, b)),
            BinOp::LtEq => Some((n.at_most)(a, b)),
            BinOp::Gt => Some((n.less)(b, a)),
            BinOp::GtEq => Some((n.at_most)(b, a)),
            _ => None,
        }
    }
}

impl UnaryOp {
    /// What an operator of the language gives on a number.
    pub open spec fn on(self, n: Numbers, a: int) -> int {
        match self {
            UnaryOp::Neg => (n.negative)(a),
            UnaryOp::Not => (n.truth)(!(n.holds)(a)),
        }
    }
}

/// The number that a row of digits is.
pub open spec fn digits_value(s: Seq<char>) -> int
    decreases s.len(),
{
    if s.len() == 0 {
        0
    } else {
        10 * digits_value(s.drop_last()) + (s.last() as int - '0' as int)
    }
}

/// Reading a number's decimal rendering gives the number.
pub proof fn decimals_are_read_back(n: nat)
    ensures
        digits_value(crate::text::decimal(n)) == n,
        crate::text::decimal(n).len() > 0,
        forall|i: int|
            0 <= i < crate::text::decimal(n).len() ==> '0' <= #[trigger] crate::text::decimal(n)[i]
                <= '9',
    decreases n,
{
    let d = crate::text::decimal(n);
    if n < 10 {
        assert(d.drop_last() =~= Seq::<char>::empty());
        assert(digits_value(d.drop_last()) == 0);
    } else {
        decimals_are_read_back(n / 10);
        let head = crate::text::decimal(n / 10);
        assert(d == head.push(crate::text::digit((n % 10) as int)));
        assert(d.drop_last() =~= head);
        assert forall|i: int| 0 <= i < d.len() implies '0' <= #[trigger] d[i] <= '9' by {
            if i < head.len() {
                assert(d[i] == head[i]);
            }
        }
    }
}

} // verus!
