//! Shapes and row-major positions.

use vstd::prelude::*;

verus! {

/// Number of elements of a shape.
pub open spec fn count(shape: Seq<usize>) -> nat
    decreases shape.len(),
{
    if shape.len() == 0 {
        1
    } else {
        count(shape.drop_last()) * (shape.last() as nat)
    }
}

/// Whether a multi-index lies inside a shape.
pub open spec fn in_range(idx: Seq<usize>, shape: Seq<usize>) -> bool {
    &&& idx.len() == shape.len()
    &&& forall|d: int| 0 <= d < idx.len() ==> #[trigger] idx[d] < shape[d]
}

/// Row-major position of a multi-index.
pub open spec fn offset(idx: Seq<usize>, shape: Seq<usize>) -> nat
    decreases shape.len(),
{
    if shape.len() == 0 {
        0
    } else {
        offset(idx.drop_last(), shape.drop_last()) * (shape.last() as nat) + idx.last() as nat
    }
}

/// Multi-index of a row-major position.
pub open spec fn index_at(flat: nat, shape: Seq<usize>) -> Seq<usize>
    decreases shape.len(),
{
    if shape.len() == 0 {
        Seq::empty()
    } else {
        index_at(flat / (shape.last() as nat), shape.drop_last()).push(
            (flat % (shape.last() as nat)) as usize,
        )
    }
}

/// Whether every dimension is positive.
pub open spec fn solid(shape: Seq<usize>) -> bool {
    forall|d: int| 0 <= d < shape.len() ==> #[trigger] shape[d] > 0
}

/// The position of an index inside a shape lies below the element count, and
/// the index can be recovered from it.
pub proof fn offset_round_trip(idx: Seq<usize>, shape: Seq<usize>)
    requires
        in_range(idx, shape),
    ensures
        offset(idx, shape) < count(shape),
        index_at(offset(idx, shape), shape) == idx,
    decreases shape.len(),
{
    if shape.len() > 0 {
        let i = idx.drop_last();
        let s = shape.drop_last();
        assert(in_range(i, s)) by {
            assert forall|d: int| 0 <= d < i.len() implies #[trigger] i[d] < s[d] by {
                assert(idx[d] < shape[d]);
            }
        }
        offset_round_trip(i, s);
        let n = shape.last() as int;
        let q = offset(i, s) as int;
        let r = idx.last() as int;
        assert(idx[idx.len() - 1] < shape[shape.len() - 1]);
        assert(q * n + r < count(s) * n) by (nonlinear_arith)
            requires
                q < count(s),
                0 <= r < n,
                0 <= q,
        ;
        vstd::arithmetic::div_mod::lemma_fundamental_div_mod_converse(q * n + r, n, q, r);
        assert(i.push(idx.last()) =~= idx);
    } else {
        assert(idx =~= Seq::empty());
    }
}

/// The index of a position below the element count lies inside the shape, and
/// has that position.
pub proof fn index_round_trip(flat: nat, shape: Seq<usize>)
    requires
        flat < count(shape),
    ensures
        in_range(index_at(flat, shape), shape),
        offset(index_at(flat, shape), shape) == flat,
        solid(shape),
    decreases shape.len(),
{
    if shape.len() > 0 {
        let s = shape.drop_last();
        let n = shape.last() as nat;
        let c = count(s);
        assert(n > 0 && c > 0) by (nonlinear_arith)
            requires
                flat < c * n,
                flat >= 0,
                n >= 0,
                c >= 0,
        ;
        vstd::arithmetic::div_mod::lemma_fundamental_div_mod(flat as int, n as int);
        vstd::arithmetic::mul::lemma_mul_is_commutative(c as int, n as int);
        vstd::arithmetic::div_mod::lemma_multiply_divide_lt(flat as int, n as int, c as int);
        let rest = index_at(flat / n, s);
        index_round_trip(flat / n, s);
        let whole = index_at(flat, shape);
        assert(whole.drop_last() =~= rest);
        assert forall|d: int| 0 <= d < whole.len() implies #[trigger] whole[d] < shape[d] by {
            if d < rest.len() {
                assert(rest[d] < s[d]);
            }
        }
        assert forall|d: int| 0 <= d < shape.len() implies #[trigger] shape[d] > 0 by {
            if d < s.len() {
                assert(s[d] > 0);
            }
        }
        vstd::arithmetic::mul::lemma_mul_is_commutative((flat / n) as int, n as int);
    }
}

/// A shape with positive dimensions has elements, and no leading part of it
/// has more than the whole.
proof fn count_of_part(shape: Seq<usize>, k: int)
    requires
        solid(shape),
        0 <= k <= shape.len(),
    ensures
        0 < count(shape.take(k)) <= count(shape),
    decreases shape.len(),
{
    if k == shape.len() {
        assert(shape.take(k) =~= shape);
        if k > 0 {
            let s = shape.drop_last();
            assert(solid(s)) by {
                assert forall|d: int| 0 <= d < s.len() implies #[trigger] s[d] > 0 by {
                    assert(shape[d] > 0);
                }
            }
            count_of_part(s, s.len() as int);
            assert(s.take(s.len() as int) =~= s);
            assert(shape[shape.len() - 1] > 0);
            assert(count(s) * (shape.last() as nat) > 0) by (nonlinear_arith)
                requires
                    count(s) > 0,
                    shape.last() as nat > 0,
            ;
        }
    } else {
        let s = shape.drop_last();
        assert(solid(s)) by {
            assert forall|d: int| 0 <= d < s.len() implies #[trigger] s[d] > 0 by {
                assert(shape[d] > 0);
            }
        }
        count_of_part(s, k);
        assert(s.take(k) =~= shape.take(k));
        assert(shape[shape.len() - 1] > 0);
        assert(count(s) * (shape.last() as nat) >= count(s)) by (nonlinear_arith)
            requires
                count(s) > 0,
                shape.last() as nat >= 1,
        ;
    }
}

/// A shape with a zero dimension has no elements.
proof fn count_hollow(shape: Seq<usize>, k: int)
    requires
        0 <= k < shape.len(),
        shape[k] == 0,
    ensures
        count(shape) == 0,
    decreases shape.len(),
{
    let s = shape.drop_last();
    if k < s.len() {
        count_hollow(s, k);
    }
    assert(count(s) * (shape.last() as nat) == 0) by (nonlinear_arith)
        requires
            count(s) == 0 || shape.last() as nat == 0,
    ;
}

/// Number of elements of a shape, where it fits in a machine word.
pub fn element_count(shape: &Vec<usize>) -> (r: Option<usize>)
    ensures
        match r {
            Some(n) => n == count(shape@),
            None => count(shape@) > usize::MAX,
        },
{
    let mut k: usize = 0;
    while k < shape.len()
        invariant
            k <= shape.len(),
            forall|d: int| 0 <= d < k ==> #[trigger] shape@[d] > 0,
        decreases shape.len() - k,
    {
        if shape[k] == 0 {
            proof {
                count_hollow(shape@, k as int);
            }
            return Some(0);
        }
        k = k + 1;
    }
    let mut acc: usize = 1;
    let mut i: usize = 0;
    while i < shape.len()
        invariant
            i <= shape.len(),
            solid(shape@),
            acc == count(shape@.take(i as int)),
        decreases shape.len() - i,
    {
        let ghost next = shape@.take(i as int + 1);
        proof {
            assert(next.drop_last() =~= shape@.take(i as int));
            assert(count(next) == acc * shape@[i as int]);
            count_of_part(shape@, i as int + 1);
        }
        match acc.checked_mul(shape[i]) {
            Some(v) => {
                acc = v;
            },
            None => {
                return None;
            },
        }
        i = i + 1;
    }
    proof {
        assert(shape@.take(i as int) =~= shape@);
    }
    Some(acc)
}

/// Multi-index of a row-major position.
pub fn unflatten(flat: usize, shape: &Vec<usize>) -> (r: Vec<usize>)
    requires
        flat < count(shape@),
    ensures
        r@ == index_at(flat as nat, shape@),
{
    let n: usize = shape.len();
    let mut out: Vec<usize> = vec![0;n];
    let mut rem: usize = flat;
    let mut k: usize = n;
    proof {
        index_round_trip(flat as nat, shape@);
        assert(shape@.take(n as int) =~= shape@);
        assert(out@.subrange(n as int, n as int) =~= Seq::<usize>::empty());
        assert(index_at(rem as nat, shape@.take(n as int)) + out@.subrange(n as int, n as int)
            =~= index_at(flat as nat, shape@));
    }
    while k > 0
        invariant
            k <= n,
            n == shape.len(),
            out.len() == n,
            solid(shape@),
            index_at(flat as nat, shape@) =~= index_at(rem as nat, shape@.take(k as int))
                + out@.subrange(k as int, n as int),
        decreases k,
    {
        k = k - 1;
        let d: usize = shape[k];
        let ghost part = shape@.take(k as int + 1);
        let ghost before = out@;
        proof {
            assert(shape@[k as int] > 0);
            assert(part.drop_last() =~= shape@.take(k as int));
            assert(part.last() == d);
        }
        out.set(k, rem % d);
        proof {
            let a = index_at((rem / d) as nat, shape@.take(k as int));
            assert(index_at(rem as nat, part) == a.push(rem % d));
            assert(a.push(rem % d) + before.subrange(k as int + 1, n as int) =~= a + out@.subrange(
                k as int,
                n as int,
            ));
        }
        rem = rem / d;
    }
    proof {
        assert(out@.subrange(0, n as int) =~= out@);
        assert(index_at(rem as nat, shape@.take(0)) + out@ =~= out@);
    }
    out
}

/// Row-major position of a multi-index.
pub fn flatten(idx: &Vec<usize>, shape: &Vec<usize>) -> (r: usize)
    requires
        in_range(idx@, shape@),
        count(shape@) <= usize::MAX,
    ensures
        r == offset(idx@, shape@),
{
    let mut acc: usize = 0;
    let mut i: usize = 0;
    proof {
        offset_round_trip(idx@, shape@);
        index_round_trip(offset(idx@, shape@), shape@);
    }
    while i < shape.len()
        invariant
            i <= shape.len(),
            in_range(idx@, shape@),
            solid(shape@),
            count(shape@) <= usize::MAX,
            acc == offset(idx@.take(i as int), shape@.take(i as int)),
        decreases shape.len() - i,
    {
        proof {
            let s = shape@.take(i as int + 1);
            let x = idx@.take(i as int + 1);
            assert(s.drop_last() =~= shape@.take(i as int));
            assert(x.drop_last() =~= idx@.take(i as int));
            assert(in_range(x, s)) by {
                assert forall|d: int| 0 <= d < x.len() implies #[trigger] x[d] < s[d] by {
                    assert(idx@[d] < shape@[d]);
                }
            }
            offset_round_trip(x, s);
            count_of_part(shape@, i as int + 1);
            assert(offset(x, s) == acc * shape@[i as int] + idx@[i as int]);
            assert(0 <= acc * shape@[i as int]) by (nonlinear_arith)
                requires
                    acc >= 0,
                    shape@[i as int] >= 0,
            ;
        }
        acc = acc * shape[i] + idx[i];
        i = i + 1;
    }
    proof {
        assert(shape@.take(i as int) =~= shape@);
        assert(idx@.take(i as int) =~= idx@);
    }
    acc
}

/// Row-major stride of a dimension: the element count of the dimensions
/// behind it.
pub open spec fn stride(shape: Seq<usize>, k: int) -> nat {
    count(shape.skip(k + 1))
}

/// Sum of the first `k` coordinates, each times its stride.
pub open spec fn strided(idx: Seq<usize>, shape: Seq<usize>, k: nat) -> nat
    decreases k,
{
    if k == 0 {
        0
    } else {
        strided(idx, shape, (k - 1) as nat) + (idx[k - 1] as nat) * stride(shape, k - 1)
    }
}

/// Appending a dimension multiplies every earlier stride by it.
proof fn strided_longer(idx: Seq<usize>, shape: Seq<usize>, k: nat)
    requires
        shape.len() > 0,
        idx.len() == shape.len(),
        k <= shape.len() - 1,
    ensures
        strided(idx, shape, k) == strided(idx.drop_last(), shape.drop_last(), k) * (
        shape.last() as nat),
    decreases k,
{
    let s = shape.drop_last();
    let n = shape.last() as nat;
    if k > 0 {
        strided_longer(idx, shape, (k - 1) as nat);
        let tail = shape.skip(k as int);
        assert(tail.drop_last() =~= s.skip(k as int));
        assert(stride(shape, k - 1) == stride(s, k - 1) * n);
        let x = idx[k - 1] as nat;
        let t = stride(s, k - 1);
        let u = strided(idx.drop_last(), s, (k - 1) as nat);
        assert(strided(idx.drop_last(), s, k) == u + x * t);
        assert(strided(idx, shape, k) == u * n + x * (t * n));
        assert(u * n + x * (t * n) == (u + x * t) * n) by (nonlinear_arith);
    } else {
        assert(0 * n == 0) by (nonlinear_arith);
    }
}

/// The row-major position of an index is the sum of its coordinates, each
/// times its dimension's stride.
pub proof fn offset_is_strided(idx: Seq<usize>, shape: Seq<usize>)
    requires
        idx.len() == shape.len(),
    ensures
        offset(idx, shape) == strided(idx, shape, shape.len()),
    decreases shape.len(),
{
    if shape.len() > 0 {
        let k = (shape.len() - 1) as nat;
        offset_is_strided(idx.drop_last(), shape.drop_last());
        strided_longer(idx, shape, k);
        assert(shape.skip(k as int + 1) =~= Seq::<usize>::empty());
        assert(stride(shape, k as int) == 1);
    }
}

} // verus!
