//! Matrix products: a pair of matrices, a pair of batches of matrices, or a
//! batch and one matrix.

use crate::runtime::fold;
use crate::runtime::layout::ShapeError;
use crate::runtime::shape;
use vstd::prelude::*;

verus! {

/// Sizes of a matrix product `(batch, m, k) x (batch, k, n)`.
#[derive(Clone, Copy, Debug, PartialEq, Eq, Structural)]
pub struct MatmulPlan {
    pub batch: usize,
    pub m: usize,
    pub k: usize,
    pub n: usize,
    /// Whether the left operand, and so the result, has a batch dimension.
    pub left_batched: bool,
    /// Whether the right operand has a batch dimension; otherwise one matrix
    /// serves every batch entry.
    pub right_batched: bool,
}

/// The product that two shapes ask for.
pub open spec fn plan_of(a: Seq<usize>, b: Seq<usize>) -> Result<MatmulPlan, ShapeError> {
    if a.len() == 2 && b.len() == 2 {
        if a[1] != b[0] {
            Err(ShapeError::MatmulInner { left: a[1], right: b[0] })
        } else {
            Ok(
                MatmulPlan {
                    batch: 1,
                    m: a[0],
                    k: a[1],
                    n: b[1],
                    left_batched: false,
                    right_batched: false,
                },
            )
        }
    } else if a.len() == 3 && b.len() == 3 {
        if a[0] != b[0] {
            Err(ShapeError::MatmulBatch { left: a[0], right: b[0] })
        } else if a[2] != b[1] {
            Err(ShapeError::MatmulInner { left: a[2], right: b[1] })
        } else {
            Ok(
                MatmulPlan {
                    batch: a[0],
                    m: a[1],
                    k: a[2],
                    n: b[2],
                    left_batched: true,
                    right_batched: true,
                },
            )
        }
    } else if a.len() == 3 && b.len() == 2 {
        if a[2] != b[0] {
            Err(ShapeError::MatmulInner { left: a[2], right: b[0] })
        } else {
            Ok(
                MatmulPlan {
                    batch: a[0],
                    m: a[1],
                    k: a[2],
                    n: b[1],
                    left_batched: true,
                    right_batched: false,
                },
            )
        }
    } else {
        Err(ShapeError::MatmulRank { left: a.len() as usize, right: b.len() as usize })
    }
}

/// Finds the product that two shapes ask for.
pub fn plan_matmul(a: &Vec<usize>, b: &Vec<usize>) -> (r: Result<MatmulPlan, ShapeError>)
    ensures
        r == plan_of(a@, b@),
{
    if a.len() == 2 && b.len() == 2 {
        if a[1] != b[0] {
            return Err(ShapeError::MatmulInner { left: a[1], right: b[0] });
        }
        Ok(
            MatmulPlan {
                batch: 1,
                m: a[0],
                k: a[1],
                n: b[1],
                left_batched: false,
                right_batched: false,
            },
        )
    } else if a.len() == 3 && b.len() == 3 {
        if a[0] != b[0] {
            return Err(ShapeError::MatmulBatch { left: a[0], right: b[0] });
        }
        if a[2] != b[1] {
            return Err(ShapeError::MatmulInner { left: a[2], right: b[1] });
        }
        Ok(
            MatmulPlan {
                batch: a[0],
                m: a[1],
                k: a[2],
                n: b[2],
                left_batched: true,
                right_batched: true,
            },
        )
    } else if a.len() == 3 && b.len() == 2 {
        if a[2] != b[0] {
            return Err(ShapeError::MatmulInner { left: a[2], right: b[0] });
        }
        Ok(
            MatmulPlan {
                batch: a[0],
                m: a[1],
                k: a[2],
                n: b[1],
                left_batched: true,
                right_batched: false,
            },
        )
    } else {
        Err(ShapeError::MatmulRank { left: a.len(), right: b.len() })
    }
}

impl MatmulPlan {
    pub open spec fn out_dims(self) -> Seq<usize> {
        if self.left_batched {
            seq![self.batch, self.m, self.n]
        } else {
            seq![self.m, self.n]
        }
    }

    /// Number of result elements.
    pub open spec fn cells(self) -> nat {
        self.batch as nat * self.m as nat * self.n as nat
    }

    pub open spec fn left_len(self) -> nat {
        self.batch as nat * self.m as nat * self.k as nat
    }

    pub open spec fn right_len(self) -> nat {
        if self.right_batched {
            self.batch as nat * self.k as nat * self.n as nat
        } else {
            self.k as nat * self.n as nat
        }
    }

    /// Whether some dimension is zero, so that there is nothing to multiply.
    pub open spec fn hollow(self) -> bool {
        self.batch == 0 || self.m == 0 || self.k == 0 || self.n == 0
    }

    pub fn is_hollow(&self) -> (r: bool)
        ensures
            r == self.hollow(),
    {
        self.batch == 0 || self.m == 0 || self.k == 0 || self.n == 0
    }

    /// Shape of the result.
    pub fn out_shape(&self) -> (r: Vec<usize>)
        ensures
            r@ == self.out_dims(),
    {
        let mut out: Vec<usize> = Vec::new();
        if self.left_batched {
            out.push(self.batch);
        }
        out.push(self.m);
        out.push(self.n);
        assert(out@ =~= self.out_dims());
        out
    }

    /// Row of the left operand that result element `o` takes.
    pub open spec fn row<T>(self, a: Seq<T>, o: int) -> Seq<T> {
        Seq::new(self.k as nat, |kk: int| a[(o / self.n as int) * self.k + kk])
    }

    /// First row of the right operand's matrix for result element `o`.
    pub open spec fn base(self, o: int) -> int {
        if self.right_batched {
            ((o / self.n as int) / self.m as int) * self.k
        } else {
            0
        }
    }

    /// Column of the right operand that result element `o` takes.
    pub open spec fn column<T>(self, b: Seq<T>, o: int) -> Seq<T> {
        Seq::new(
            self.k as nat,
            |kk: int| b[(self.base(o) + kk) * self.n + o % self.n as int],
        )
    }

    /// Byte positions of the matrices of batch entry `bx`, for elements of
    /// four bytes: left, right and result.
    pub open spec fn offsets(self, bx: int) -> (int, int, int) {
        (
            bx * self.m * self.k * 4,
            if self.right_batched {
                bx * self.k * self.n * 4
            } else {
                0
            },
            bx * self.m * self.n * 4,
        )
    }

    /// Byte positions of the matrices of batch entry `bx`, for elements of
    /// four bytes: left, right and result.
    pub fn byte_offsets(&self, bx: usize) -> (r: (usize, usize, usize))
        requires
            bx < self.batch,
            self.left_len() * 4 <= usize::MAX,
            self.right_len() * 4 <= usize::MAX,
            self.cells() * 4 <= usize::MAX,
        ensures
            r.0 == self.offsets(bx as int).0,
            r.1 == self.offsets(bx as int).1,
            r.2 == self.offsets(bx as int).2,
    {
        proof {
            scaled_fits(bx as int, self.batch as int, self.m as int, self.k as int);
            scaled_fits(bx as int, self.batch as int, self.k as int, self.n as int);
            scaled_fits(bx as int, self.batch as int, self.m as int, self.n as int);
        }
        let left: usize = if self.m == 0 || self.k == 0 {
            0
        } else {
            bx * self.m * self.k * 4
        };
        let right: usize = if self.right_batched && self.k != 0 && self.n != 0 {
            bx * self.k * self.n * 4
        } else {
            0
        };
        let out: usize = if self.m == 0 || self.n == 0 {
            0
        } else {
            bx * self.m * self.n * 4
        };
        (left, right, out)
    }
}

proof fn scaled_fits(bx: int, batch: int, x: int, y: int)
    requires
        0 <= bx < batch,
        0 <= x,
        0 <= y,
    ensures
        0 <= bx * x * y <= batch * x * y,
        x > 0 && y > 0 ==> bx * x <= bx * x * y,
        x == 0 || y == 0 ==> bx * x * y == 0,
        0 <= bx * x,
{
    assert(0 <= bx * x) by (nonlinear_arith)
        requires
            0 <= bx,
            0 <= x,
    ;
    assert(bx * x <= batch * x) by (nonlinear_arith)
        requires
            bx < batch,
            0 <= x,
    ;
    let p = bx * x;
    let q = batch * x;
    assert(0 <= p * y <= q * y) by (nonlinear_arith)
        requires
            0 <= p <= q,
            0 <= y,
    ;
    if x > 0 && y > 0 {
        assert(p <= p * y) by (nonlinear_arith)
            requires
                0 <= p,
                y > 0,
        ;
    }
    if x == 0 {
        assert(bx * 0 == 0);
        assert(0 * y == 0);
    }
}

proof fn operand_lengths(a: Seq<usize>, b: Seq<usize>)
    requires
        plan_of(a, b) is Ok,
    ensures
        shape::count(a) == plan_of(a, b)->Ok_0.left_len(),
        shape::count(b) == plan_of(a, b)->Ok_0.right_len(),
{
    lengths_of_rank(a);
    lengths_of_rank(b);
    let p = plan_of(a, b)->Ok_0;
    assert(1 * p.m as nat == p.m as nat);
}

proof fn lengths_of_rank(s: Seq<usize>)
    ensures
        s.len() == 2 ==> shape::count(s) == s[0] as nat * s[1] as nat,
        s.len() == 3 ==> shape::count(s) == s[0] as nat * s[1] as nat * s[2] as nat,
{
    reveal_with_fuel(shape::count, 4);
    if s.len() == 2 || s.len() == 3 {
        assert(1 * s[0] as nat == s[0] as nat);
    }
}

/// The result of a matrix product has as many elements as its shape says.
pub proof fn cells_of_shape(p: MatmulPlan)
    requires
        !p.left_batched ==> p.batch == 1,
    ensures
        shape::count(p.out_dims()) == p.cells(),
{
    lengths_of_rank(p.out_dims());
    assert(1 * p.m as nat == p.m as nat);
}

/// Row, column and batch entry of the result element at `(bx, i, j)`.
pub proof fn cell_position(p: MatmulPlan, bx: int, i: int, j: int)
    requires
        0 <= bx,
        0 <= i < p.m,
        0 <= j < p.n,
    ensures
        ((bx * p.m + i) * p.n + j) / p.n as int == bx * p.m + i,
        ((bx * p.m + i) * p.n + j) % p.n as int == j,
        (bx * p.m + i) / p.m as int == bx,
{
    vstd::arithmetic::div_mod::lemma_fundamental_div_mod_converse(
        (bx * p.m + i) * p.n + j,
        p.n as int,
        bx * p.m + i,
        j,
    );
    vstd::arithmetic::div_mod::lemma_fundamental_div_mod_converse(
        bx * p.m + i,
        p.m as int,
        bx,
        i,
    );
}

/// The operand elements that a result element needs exist.
proof fn cell_bounds(p: MatmulPlan, o: int, kk: int)
    requires
        0 <= o < p.cells(),
        0 <= kk < p.k,
        !p.left_batched ==> p.batch == 1,
    ensures
        p.n > 0,
        p.m > 0,
        0 <= (o / p.n as int) * p.k + kk < p.left_len(),
        0 <= (p.base(o) + kk) * p.n + o % p.n as int,
        (p.base(o) + kk) * p.n + o % p.n as int <= p.right_len() - 1,
        0 <= (o / p.n as int) * p.k,
        0 <= p.base(o),
        0 <= (p.base(o) + kk) * p.n,
        p.base(o) + kk <= (p.base(o) + kk) * p.n,
{
    let rows = p.batch as int * p.m as int;
    let n = p.n as int;
    let k = p.k as int;
    let m = p.m as int;
    assert(n > 0 && rows > 0) by (nonlinear_arith)
        requires
            0 <= o < rows * n,
            n >= 0,
            rows >= 0,
    ;
    assert(m > 0) by (nonlinear_arith)
        requires
            p.batch as int * m > 0,
            m >= 0,
    ;
    let row = o / n;
    vstd::arithmetic::mul::lemma_mul_is_commutative(rows, n);
    vstd::arithmetic::div_mod::lemma_multiply_divide_lt(o, n, rows);
    vstd::arithmetic::div_mod::lemma_fundamental_div_mod(o, n);
    vstd::arithmetic::div_mod::lemma_div_pos_is_pos(o, n);
    assert(0 <= row < rows);
    assert(0 <= row * k && row * k + kk < rows * k) by (nonlinear_arith)
        requires
            0 <= row < rows,
            0 <= kk < k,
    ;
    let j = o % n;
    let bx = row / m;
    vstd::arithmetic::mul::lemma_mul_is_commutative(p.batch as int, m);
    vstd::arithmetic::div_mod::lemma_multiply_divide_lt(row, m, p.batch as int);
    vstd::arithmetic::div_mod::lemma_div_pos_is_pos(row, m);
    assert(0 <= bx < p.batch);
    assert(0 <= bx * k && bx * k + kk < p.batch as int * k) by (nonlinear_arith)
        requires
            0 <= bx < p.batch as int,
            0 <= kk < k,
    ;
    let r = p.base(o) + kk;
    let lim = if p.right_batched {
        p.batch as int * k
    } else {
        k
    };
    assert(0 <= r < lim);
    assert(0 <= r * n && r <= r * n && r * n + j <= lim * n - 1) by (nonlinear_arith)
        requires
            0 <= r < lim,
            0 <= j < n,
    ;
}

/// Multiplies matrices with a given multiply-and-add step, each result
/// element over its row and column in order.
pub fn tensor_matmul_cpu<T: Copy, F: Fn(T, T, T) -> T>(
    a: &Vec<T>,
    a_shape: &Vec<usize>,
    b: &Vec<T>,
    b_shape: &Vec<usize>,
    zero: T,
    step: F,
) -> (r: Result<(Vec<usize>, Vec<T>), ShapeError>)
    requires
        a.len() == shape::count(a_shape@),
        b.len() == shape::count(b_shape@),
        forall|x: T, y: T, z: T| #[trigger] call_requires(step, (x, y, z)),
    ensures
        match plan_of(a_shape@, b_shape@) {
            Err(e) => r == Err::<(Vec<usize>, Vec<T>), ShapeError>(e),
            Ok(p) => match r {
                Err(e) => e == ShapeError::TooLarge && p.cells() > usize::MAX,
                Ok(v) => {
                    &&& v.0@ == p.out_dims()
                    &&& v.1@.len() == p.cells()
                    &&& forall|o: int|
                        0 <= o < v.1@.len() ==> fold::folds_pairs(
                            step,
                            zero,
                            p.row(a@, o),
                            p.column(b@, o),
                            #[trigger] v.1@[o],
                        )
                },
            },
        },
{
    let p = match plan_matmul(a_shape, b_shape) {
        Ok(p) => p,
        Err(e) => {
            return Err(e);
        },
    };
    let dims = p.out_shape();
    let total: usize = match shape::element_count(&dims) {
        Some(t) => t,
        None => {
            proof {
                cells_of_shape(p);
            }
            return Err(ShapeError::TooLarge);
        },
    };
    proof {
        cells_of_shape(p);
        operand_lengths(a_shape@, b_shape@);
    }
    let mut out: Vec<T> = Vec::new();
    let mut o: usize = 0;
    while o < total
        invariant
            o <= total,
            total == p.cells(),
            a.len() == p.left_len(),
            b.len() == p.right_len(),
            !p.left_batched ==> p.batch == 1,
            forall|x: T, y: T, z: T| #[trigger] call_requires(step, (x, y, z)),
            out.len() == o,
            forall|q: int|
                0 <= q < o ==> fold::folds_pairs(
                    step,
                    zero,
                    p.row(a@, q),
                    p.column(b@, q),
                    #[trigger] out@[q],
                ),
        decreases total - o,
    {
        let v = matmul_cell(a, b, &p, o, zero, &step);
        out.push(v);
        o = o + 1;
    }
    Ok((dims, out))
}

fn matmul_cell<T: Copy, F: Fn(T, T, T) -> T>(
    a: &Vec<T>,
    b: &Vec<T>,
    p: &MatmulPlan,
    o: usize,
    zero: T,
    step: &F,
) -> (r: T)
    requires
        o < p.cells(),
        a.len() == p.left_len(),
        b.len() == p.right_len(),
        !p.left_batched ==> p.batch == 1,
        forall|x: T, y: T, z: T| #[trigger] call_requires(*step, (x, y, z)),
    ensures
        fold::folds_pairs(*step, zero, p.row(a@, o as int), p.column(b@, o as int), r),
{
    let ghost xs = p.row(a@, o as int);
    let ghost ys = p.column(b@, o as int);
    let mut acc = zero;
    let mut kk: usize = 0;
    proof {
        assert(xs.take(0) =~= Seq::<T>::empty());
    }
    while kk < p.k
        invariant
            kk <= p.k,
            o < p.cells(),
            a.len() == p.left_len(),
            b.len() == p.right_len(),
            !p.left_batched ==> p.batch == 1,
            forall|x: T, y: T, z: T| #[trigger] call_requires(*step, (x, y, z)),
            xs == p.row(a@, o as int),
            ys == p.column(b@, o as int),
            fold::folds_pairs(*step, zero, xs.take(kk as int), ys.take(kk as int), acc),
        decreases p.k - kk,
    {
        proof {
            cell_bounds(*p, o as int, kk as int);
        }
        let row: usize = o / p.n;
        let base: usize = if p.right_batched {
            (row / p.m) * p.k
        } else {
            0
        };
        let x = a[row * p.k + kk];
        let y = b[(base + kk) * p.n + o % p.n];
        let ghost was = acc;
        acc = step(acc, x, y);
        proof {
            let u = xs.take(kk as int + 1);
            let v = ys.take(kk as int + 1);
            assert(u.drop_last() =~= xs.take(kk as int));
            assert(v.drop_last() =~= ys.take(kk as int));
            assert(u.last() == x);
            assert(v.last() == y);
            assert(call_ensures(*step, (was, u.last(), v.last()), acc));
        }
        kk = kk + 1;
    }
    proof {
        assert(xs.take(kk as int) =~= xs);
        assert(ys.take(kk as int) =~= ys);
    }
    acc
}

/// Two shapes are multiplied if and only if they are two matrices, two batches
/// of the same number of matrices, or a batch and a matrix, with the same inner
/// dimension.
pub proof fn multiplied_shapes(a: Seq<usize>, b: Seq<usize>)
    ensures
        plan_of(a, b) is Ok <==> {
            ||| a.len() == 2 && b.len() == 2 && a[1] == b[0]
            ||| a.len() == 3 && b.len() == 3 && a[0] == b[0] && a[2] == b[1]
            ||| a.len() == 3 && b.len() == 2 && a[2] == b[0]
        },
{
}

/// Multiplying the matrices at the byte positions of batch entry `bx`, row by
/// row, takes for the element in row `i` and column `j` the same operand
/// elements as the product on the host, and puts it at the same place.
pub proof fn batches_agree_with_host(p: MatmulPlan, bx: int, i: int, j: int, kk: int)
    requires
        0 <= bx < p.batch,
        0 <= i < p.m,
        0 <= j < p.n,
        0 <= kk < p.k,
    ensures
        ({
            let o = (bx * p.m + i) * p.n + j;
            &&& p.offsets(bx).2 + (i * p.n + j) * 4 == o * 4
            &&& p.offsets(bx).0 + (i * p.k + kk) * 4 == ((o / p.n as int) * p.k + kk) * 4
            &&& p.offsets(bx).1 + (kk * p.n + j) * 4 == ((p.base(o) + kk) * p.n + o % p.n as int)
                * 4
        }),
{
    let m = p.m as int;
    let n = p.n as int;
    let k = p.k as int;
    cell_position(p, bx, i, j);
    assert((bx * m + i) * n == bx * m * n + i * n) by (nonlinear_arith);
    assert((bx * m + i) * k == bx * m * k + i * k) by (nonlinear_arith);
    assert((bx * k + kk) * n == bx * k * n + kk * n) by (nonlinear_arith);
    assert((0 + kk) * n == kk * n);
}

} // verus!
