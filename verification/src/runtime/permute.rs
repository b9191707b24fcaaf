//! Permutations of dimensions.

use crate::runtime::layout::ShapeError;
use crate::runtime::shape;
use crate::runtime::shape::{flatten, unflatten};
use vstd::prelude::*;

verus! {

/// Whether a sequence is a permutation of `0..n`.
pub open spec fn is_perm(p: Seq<usize>, n: nat) -> bool {
    &&& p.len() == n
    &&& forall|i: int| 0 <= i < n ==> #[trigger] p[i] < n
    &&& forall|i: int, j: int| 0 <= i < j < n ==> #[trigger] p[i] != #[trigger] p[j]
}

pub open spec fn iota(n: nat) -> Seq<usize> {
    Seq::new(n, |i: int| i as usize)
}

/// First entry, from `k` on, that is out of range or a repetition.
pub open spec fn first_bad(raw: Seq<usize>, rank: nat, k: nat) -> Option<ShapeError>
    decreases raw.len() - k,
{
    if k >= raw.len() {
        None
    } else if raw[k as int] >= rank {
        Some(ShapeError::PermuteRange { dim: raw[k as int], rank: rank as usize })
    } else if raw.take(k as int).contains(raw[k as int]) {
        Some(ShapeError::PermuteDuplicate { dim: raw[k as int] })
    } else {
        first_bad(raw, rank, k + 1)
    }
}

/// The permutation that a list of dimension arguments stands for: none
/// reverses a matrix, two swap two axes, one per dimension spell it out.
pub open spec fn perm_of(raw: Seq<usize>, rank: nat) -> Result<Seq<usize>, ShapeError> {
    if raw.len() == 0 {
        if rank == 2 {
            Ok(seq![1usize, 0usize])
        } else {
            Err(ShapeError::TransposeRank { rank: rank as usize })
        }
    } else if raw.len() == 2 {
        if raw[0] >= rank || raw[1] >= rank {
            Err(ShapeError::SwapRange { i: raw[0], j: raw[1], rank: rank as usize })
        } else {
            Ok(iota(rank).update(raw[0] as int, raw[1]).update(raw[1] as int, raw[0]))
        }
    } else if raw.len() == rank {
        match first_bad(raw, rank, 0) {
            Some(e) => Err(e),
            None => Ok(raw),
        }
    } else {
        Err(ShapeError::PermuteArity { given: raw.len() as usize, rank: rank as usize })
    }
}

proof fn no_bad_is_perm(raw: Seq<usize>, rank: nat, k: nat)
    requires
        k <= raw.len(),
        first_bad(raw, rank, k) is None,
        forall|i: int| 0 <= i < k ==> #[trigger] raw[i] < rank,
        forall|i: int, j: int| 0 <= i < j < k ==> #[trigger] raw[i] != #[trigger] raw[j],
    ensures
        forall|i: int| 0 <= i < raw.len() ==> #[trigger] raw[i] < rank,
        forall|i: int, j: int| 0 <= i < j < raw.len() ==> #[trigger] raw[i] != #[trigger] raw[j],
    decreases raw.len() - k,
{
    if k < raw.len() {
        assert forall|i: int, j: int| 0 <= i < j < k + 1 implies #[trigger] raw[i]
            != #[trigger] raw[j] by {
            if j == k {
                assert(raw.take(k as int)[i] == raw[i]);
            }
        }
        no_bad_is_perm(raw, rank, k + 1);
    }
}

/// What a list of dimension arguments stands for is a permutation.
pub proof fn perm_of_is_perm(raw: Seq<usize>, rank: nat)
    requires
        perm_of(raw, rank) is Ok,
        rank <= usize::MAX,
    ensures
        is_perm(perm_of(raw, rank)->Ok_0, rank),
{
    if raw.len() != 0 && raw.len() != 2 {
        no_bad_is_perm(raw, rank, 0);
    }
}

/// Resolves the dimension arguments of a transpose or permute.
pub fn normalize_perm(raw: &Vec<usize>, rank: usize) -> (r: Result<Vec<usize>, ShapeError>)
    ensures
        match r {
            Ok(p) => perm_of(raw@, rank as nat) == Ok::<Seq<usize>, ShapeError>(p@) && is_perm(
                p@,
                rank as nat,
            ),
            Err(e) => perm_of(raw@, rank as nat) == Err::<Seq<usize>, ShapeError>(e),
        },
{
    let n: usize = raw.len();
    if n == 0 {
        if rank != 2 {
            return Err(ShapeError::TransposeRank { rank });
        }
        let mut p: Vec<usize> = Vec::new();
        p.push(1);
        p.push(0);
        assert(p@ =~= seq![1usize, 0usize]);
        return Ok(p);
    }
    if n == 2 {
        let i: usize = raw[0];
        let j: usize = raw[1];
        if i >= rank || j >= rank {
            return Err(ShapeError::SwapRange { i, j, rank });
        }
        let mut p: Vec<usize> = Vec::new();
        let mut k: usize = 0;
        while k < rank
            invariant
                k <= rank,
                p@ =~= iota(k as nat),
            decreases rank - k,
        {
            p.push(k);
            k = k + 1;
        }
        p.set(i, j);
        p.set(j, i);
        proof {
            perm_of_is_perm(raw@, rank as nat);
        }
        return Ok(p);
    }
    if n == rank {
        let mut seen: Vec<bool> = vec![false;rank];
        let mut k: usize = 0;
        proof {
            assert(raw@.take(0) =~= Seq::<usize>::empty());
        }
        while k < n
            invariant
                k <= n,
                n == raw.len(),
                n == rank,
                n != 0,
                n != 2,
                seen.len() == rank,
                first_bad(raw@, rank as nat, 0) == first_bad(raw@, rank as nat, k as nat),
                forall|p: int|
                    0 <= p < rank ==> #[trigger] seen@[p] == raw@.take(k as int).contains(
                        p as usize,
                    ),
            decreases n - k,
        {
            let p: usize = raw[k];
            if p >= rank {
                return Err(ShapeError::PermuteRange { dim: p, rank });
            }
            if seen[p] {
                return Err(ShapeError::PermuteDuplicate { dim: p });
            }
            let ghost was = seen@;
            seen.set(p, true);
            proof {
                let a = raw@.take(k as int);
                let b = raw@.take(k as int + 1);
                assert(b =~= a.push(p));
                assert forall|q: int| 0 <= q < rank implies #[trigger] seen@[q] == b.contains(
                    q as usize,
                ) by {
                    assert(was[q] == a.contains(q as usize));
                    if q == p {
                        assert(b[k as int] == p);
                    } else {
                        if a.contains(q as usize) {
                            let w = choose|w: int| 0 <= w < a.len() && a[w] == q as usize;
                            assert(b[w] == q as usize);
                        }
                        if b.contains(q as usize) {
                            let w = choose|w: int| 0 <= w < b.len() && b[w] == q as usize;
                            assert(a[w] == q as usize);
                        }
                    }
                }
            }
            k = k + 1;
        }
        proof {
            perm_of_is_perm(raw@, rank as nat);
        }
        return Ok(raw.clone());
    }
    Err(ShapeError::PermuteArity { given: n, rank })
}

/// Notes, for the first `n` entries, where each value stands; a later entry
/// wins.
pub open spec fn inverse_upto(p: Seq<usize>, n: nat) -> Seq<usize>
    decreases n,
{
    if n == 0 {
        Seq::new(p.len(), |i: int| 0usize)
    } else {
        inverse_upto(p, (n - 1) as nat).update(p[n - 1] as int, (n - 1) as usize)
    }
}

pub open spec fn inverse(p: Seq<usize>) -> Seq<usize> {
    inverse_upto(p, p.len())
}

proof fn inverse_upto_at(p: Seq<usize>, n: nat, m: nat)
    requires
        is_perm(p, m),
        m <= usize::MAX,
        n <= m,
    ensures
        inverse_upto(p, n).len() == m,
        forall|i: int| 0 <= i < n ==> inverse_upto(p, n)[#[trigger] p[i] as int] == i,
    decreases n,
{
    if n > 0 {
        inverse_upto_at(p, (n - 1) as nat, m);
        assert(p[n - 1] < m);
        assert forall|i: int| 0 <= i < n implies inverse_upto(p, n)[#[trigger] p[i] as int]
            == i by {
            if i < n - 1 {
                assert(p[i] != p[n - 1]);
                assert(p[i] < m);
            }
        }
    }
}

/// Every number below the length occurs in a permutation.
pub proof fn perm_is_onto(p: Seq<usize>, n: nat, v: int)
    requires
        is_perm(p, n),
        0 <= v < n,
        n <= usize::MAX,
    ensures
        exists|i: int| 0 <= i < n && #[trigger] p[i] == v,
{
    let q = p.map_values(|x: usize| x as int);
    assert(q.no_duplicates()) by {
        assert forall|i: int, j: int| 0 <= i < q.len() && 0 <= j < q.len() && i != j implies q[i]
            != q[j] by {
            if i < j {
                assert(p[i] != p[j]);
            } else {
                assert(p[j] != p[i]);
            }
        }
    }
    q.unique_seq_to_set();
    let all = vstd::set_lib::set_int_range(0, n as int);
    vstd::set_lib::lemma_int_range(0, n as int);
    assert(q.to_set().subset_of(all)) by {
        assert forall|x: int| q.to_set().contains(x) implies all.contains(x) by {
            let i = choose|i: int| 0 <= i < q.len() && q[i] == x;
            assert(p[i] < n);
        }
    }
    vstd::set_lib::lemma_subset_equality(q.to_set(), all);
    assert(all.contains(v));
    assert(q.to_set().contains(v));
    let i = choose|i: int| 0 <= i < q.len() && q[i] == v;
    assert(p[i] == v);
}

/// The inverse of a permutation is a permutation, and each undoes the other.
pub proof fn inverse_undoes(p: Seq<usize>, n: nat)
    requires
        is_perm(p, n),
        n <= usize::MAX,
    ensures
        is_perm(inverse(p), n),
        forall|i: int| 0 <= i < n ==> inverse(p)[#[trigger] p[i] as int] == i,
        forall|j: int| 0 <= j < n ==> p[#[trigger] inverse(p)[j] as int] == j,
{
    inverse_upto_at(p, n, n);
    let q = inverse(p);
    assert forall|j: int| 0 <= j < n implies (#[trigger] q[j]) < n && p[q[j] as int] == j by {
        perm_is_onto(p, n, j);
        let i = choose|i: int| 0 <= i < n && #[trigger] p[i] == j;
        assert(q[p[i] as int] == i);
    }
    assert forall|i: int, j: int| 0 <= i < j < n implies #[trigger] q[i] != #[trigger] q[j] by {
        assert(p[q[i] as int] == i);
        assert(p[q[j] as int] == j);
    }
}

/// Inverting a permutation twice gives it back.
pub proof fn inverse_twice(p: Seq<usize>, n: nat)
    requires
        is_perm(p, n),
        n <= usize::MAX,
    ensures
        inverse(inverse(p)) == p,
{
    inverse_undoes(p, n);
    let q = inverse(p);
    inverse_undoes(q, n);
    assert forall|i: int| 0 <= i < n implies inverse(q)[i] == #[trigger] p[i] by {
        assert(q[p[i] as int] == i);
        assert(p[i] < n);
        assert(inverse(q)[q[p[i] as int] as int] == p[i]);
    }
    assert(inverse(q) =~= p);
}

/// Inverts a permutation.
pub fn invert_perm(perm: &Vec<usize>) -> (r: Vec<usize>)
    requires
        forall|i: int| 0 <= i < perm.len() ==> #[trigger] perm@[i] < perm.len(),
    ensures
        r@ == inverse(perm@),
{
    let mut inv: Vec<usize> = vec![0;perm.len()];
    let mut i: usize = 0;
    assert(inv@ =~= inverse_upto(perm@, 0));
    while i < perm.len()
        invariant
            i <= perm.len(),
            inv.len() == perm.len(),
            inv@ == inverse_upto(perm@, i as nat),
            forall|j: int| 0 <= j < perm.len() ==> #[trigger] perm@[j] < perm.len(),
        decreases perm.len() - i,
    {
        let p: usize = perm[i];
        assert(perm@[i as int] < perm.len());
        inv.set(p, i);
        i = i + 1;
    }
    inv
}

/// A shape with its dimensions reordered.
pub open spec fn permuted(s: Seq<usize>, p: Seq<usize>) -> Seq<usize> {
    Seq::new(p.len(), |d: int| s[p[d] as int])
}

/// The index before a reordering: what stands at `d` came from `p[d]`.
pub open spec fn unpermuted(idx: Seq<usize>, p: Seq<usize>) -> Seq<usize> {
    permuted(idx, inverse(p))
}

/// Position before a reordering of the element at position `flat` after it.
pub open spec fn permute_source(flat: nat, s: Seq<usize>, p: Seq<usize>) -> nat {
    shape::offset(unpermuted(shape::index_at(flat, permuted(s, p)), p), s)
}

/// Taking a dimension out divides the element count by it.
proof fn count_without(s: Seq<usize>, k: int)
    requires
        0 <= k < s.len(),
    ensures
        shape::count(s) == shape::count(s.remove(k)) * (s[k] as nat),
    decreases s.len(),
{
    if k == s.len() - 1 {
        assert(s.remove(k) =~= s.drop_last());
    } else {
        let t = s.drop_last();
        count_without(t, k);
        assert(s.remove(k).drop_last() =~= t.remove(k));
        let a = shape::count(t.remove(k));
        let b = s[k] as nat;
        let c = s.last() as nat;
        assert(s.remove(k).last() == s.last());
        assert((a * b) * c == (a * c) * b) by (nonlinear_arith);
    }
}

/// Reordering the dimensions keeps the element count.
pub proof fn count_permuted(s: Seq<usize>, p: Seq<usize>, n: nat)
    requires
        is_perm(p, n),
        s.len() == n,
        n <= usize::MAX,
    ensures
        shape::count(permuted(s, p)) == shape::count(s),
    decreases n,
{
    if n > 0 {
        let last = p[n - 1];
        assert(last < n);
        let t = s.remove(last as int);
        let m = (n - 1) as nat;
        let q = Seq::new(
            m,
            |i: int|
                if p[i] > last {
                    (p[i] - 1) as usize
                } else {
                    p[i]
                },
        );
        assert(is_perm(q, m)) by {
            assert forall|i: int| 0 <= i < m implies #[trigger] q[i] < m by {
                assert(p[i] < n);
                assert(p[i] != p[n - 1]);
            }
            assert forall|i: int, j: int| 0 <= i < j < m implies #[trigger] q[i]
                != #[trigger] q[j] by {
                assert(p[i] != p[j]);
                assert(p[i] != p[n - 1]);
                assert(p[j] != p[n - 1]);
            }
        }
        count_permuted(t, q, m);
        assert(permuted(t, q) =~= permuted(s, p).drop_last()) by {
            assert forall|i: int| 0 <= i < m implies permuted(t, q)[i] == permuted(s, p)[i] by {
                assert(p[i] < n);
                assert(p[i] != p[n - 1]);
            }
        }
        count_without(s, last as int);
    } else {
        assert(permuted(s, p) =~= s);
    }
}

/// Positions of a reordered tensor come from positions of the tensor.
proof fn permute_source_in_range(flat: nat, s: Seq<usize>, p: Seq<usize>, n: nat)
    requires
        is_perm(p, n),
        s.len() == n,
        n <= usize::MAX,
        flat < shape::count(permuted(s, p)),
    ensures
        shape::in_range(unpermuted(shape::index_at(flat, permuted(s, p)), p), s),
        permute_source(flat, s, p) < shape::count(s),
{
    let out = permuted(s, p);
    let idx = shape::index_at(flat, out);
    shape::index_round_trip(flat, out);
    inverse_undoes(p, n);
    let src = unpermuted(idx, p);
    assert forall|j: int| 0 <= j < src.len() implies #[trigger] src[j] < s[j] by {
        let q = inverse(p)[j] as int;
        assert(p[q] == j);
        assert(inverse(p)[j] < n);
        assert(idx[q] < out[q]);
    }
    shape::offset_round_trip(src, s);
}

/// Reorders the dimensions of a tensor.
pub fn permute_by_perm<T: Copy>(data: &Vec<T>, dims: &Vec<usize>, perm: &Vec<usize>) -> (r: (
    Vec<usize>,
    Vec<T>,
))
    requires
        is_perm(perm@, dims@.len()),
        data.len() == shape::count(dims@),
    ensures
        r.0@ == permuted(dims@, perm@),
        r.1.len() == data.len(),
        forall|k: int|
            0 <= k < data.len() ==> #[trigger] r.1@[k] == data@[permute_source(
                k as nat,
                dims@,
                perm@,
            ) as int],
{
    let rank: usize = dims.len();
    let mut out_shape: Vec<usize> = Vec::new();
    let mut d: usize = 0;
    while d < rank
        invariant
            d <= rank,
            rank == dims.len(),
            is_perm(perm@, dims@.len()),
            out_shape@ =~= permuted(dims@, perm@).take(d as int),
        decreases rank - d,
    {
        assert(perm@[d as int] < rank);
        out_shape.push(dims[perm[d]]);
        d = d + 1;
    }
    assert(out_shape@ =~= permuted(dims@, perm@));
    proof {
        count_permuted(dims@, perm@, rank as nat);
        inverse_undoes(perm@, rank as nat);
    }
    let inv = invert_perm(perm);
    let n: usize = data.len();
    let mut out: Vec<T> = Vec::new();
    let mut k: usize = 0;
    while k < n
        invariant
            k <= n,
            n == data.len(),
            n == shape::count(dims@),
            n == shape::count(out_shape@),
            rank == dims.len(),
            is_perm(perm@, dims@.len()),
            is_perm(inv@, dims@.len()),
            inv@ == inverse(perm@),
            out_shape@ == permuted(dims@, perm@),
            out.len() == k,
            forall|j: int|
                0 <= j < k ==> #[trigger] out@[j] == data@[permute_source(
                    j as nat,
                    dims@,
                    perm@,
                ) as int],
        decreases n - k,
    {
        let idx = unflatten(k, &out_shape);
        proof {
            shape::index_round_trip(k as nat, out_shape@);
            permute_source_in_range(k as nat, dims@, perm@, rank as nat);
        }
        let mut src: Vec<usize> = Vec::new();
        let mut j: usize = 0;
        while j < rank
            invariant
                j <= rank,
                rank == dims.len(),
                idx.len() == rank,
                inv@ == inverse(perm@),
                is_perm(inv@, dims@.len()),
                src@ =~= unpermuted(idx@, perm@).take(j as int),
            decreases rank - j,
        {
            assert(inv@[j as int] < rank);
            src.push(idx[inv[j]]);
            j = j + 1;
        }
        assert(src@ =~= unpermuted(idx@, perm@));
        out.push(data[flatten(&src, dims)]);
        k = k + 1;
    }
    (out_shape, out)
}

/// Reordering by a permutation and then by its inverse restores the shape and
/// every position.
pub proof fn permute_round_trip(s: Seq<usize>, p: Seq<usize>, n: nat, flat: nat)
    requires
        is_perm(p, n),
        s.len() == n,
        n <= usize::MAX,
        flat < shape::count(s),
    ensures
        permuted(permuted(s, p), inverse(p)) == s,
        permute_source(permute_source(flat, permuted(s, p), inverse(p)), s, p) == flat,
{
    let q = inverse(p);
    let t = permuted(s, p);
    inverse_undoes(p, n);
    inverse_twice(p, n);
    assert(permuted(t, q) =~= s) by {
        assert forall|j: int| 0 <= j < n implies permuted(t, q)[j] == s[j] by {
            assert(p[q[j] as int] == j);
            assert(q[j] < n);
        }
    }
    count_permuted(s, p, n);
    let idx = shape::index_at(flat, s);
    shape::index_round_trip(flat, s);
    let y = unpermuted(idx, q);
    permute_source_in_range(flat, t, q, n);
    shape::offset_round_trip(y, t);
    assert(unpermuted(y, p) =~= idx) by {
        assert forall|j: int| 0 <= j < n implies unpermuted(y, p)[j] == idx[j] by {
            assert(p[q[j] as int] == j);
            assert(q[j] < n);
            assert(y[q[j] as int] == idx[inverse(q)[q[j] as int] as int]);
        }
    }
}

/// Reorders the dimensions of a tensor as a list of dimension arguments asks;
/// returns the shape and the elements of the result.
pub fn tensor_permute<T: Copy>(data: &Vec<T>, dims: &Vec<usize>, raw: &Vec<usize>) -> (r: Result<
    (Vec<usize>, Vec<T>),
    ShapeError,
>)
    requires
        data.len() == shape::count(dims@),
    ensures
        match perm_of(raw@, dims@.len()) {
            Err(e) => r == Err::<(Vec<usize>, Vec<T>), ShapeError>(e),
            Ok(p) => match r {
                Err(_) => false,
                Ok(v) => {
                    &&& v.0@ == permuted(dims@, p)
                    &&& v.1@.len() == data@.len()
                    &&& forall|k: int|
                        0 <= k < data.len() ==> #[trigger] v.1@[k] == data@[permute_source(
                            k as nat,
                            dims@,
                            p,
                        ) as int]
                },
            },
        },
{
    match normalize_perm(raw, dims.len()) {
        Err(e) => Err(e),
        Ok(p) => Ok(permute_by_perm(data, dims, &p)),
    }
}

} // verus!
