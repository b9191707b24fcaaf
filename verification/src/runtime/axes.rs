//! Axis numbers and reductions along an axis.

use crate::runtime::fold;
use crate::runtime::layout::ShapeError;
use crate::runtime::shape;
use crate::runtime::shape::{element_count, flatten, unflatten};
use vstd::prelude::*;

verus! {

/// The dimension that an axis number names; negative numbers count from the
/// end.
pub open spec fn axis_dim(axis: int, ndims: nat) -> Option<int> {
    let a = if axis < 0 {
        axis + ndims
    } else {
        axis
    };
    if 0 <= a < ndims {
        Some(a)
    } else {
        None
    }
}

/// Resolves an axis number.
pub fn normalize_axis(axis: i32, ndims: usize) -> (r: Result<usize, ShapeError>)
    requires
        ndims <= i32::MAX,
    ensures
        match r {
            Ok(a) => axis_dim(axis as int, ndims as nat) == Some(a as int),
            Err(e) => axis_dim(axis as int, ndims as nat) is None && e == (ShapeError::Axis {
                axis,
                ndims,
            }),
        },
{
    let a: i32 = if axis < 0 {
        axis + ndims as i32
    } else {
        axis
    };
    if a < 0 || a as usize >= ndims {
        Err(ShapeError::Axis { axis, ndims })
    } else {
        Ok(a as usize)
    }
}

/// Size of a dimension; negative numbers count from the end.
pub fn tensor_dim(dims: &Vec<usize>, i: i64) -> (r: Result<usize, ShapeError>)
    ensures
        match r {
            Ok(d) => match axis_dim(i as int, dims@.len()) {
                Some(k) => d == dims@[k],
                None => false,
            },
            Err(e) => axis_dim(i as int, dims@.len()) is None && e == (ShapeError::DimIndex {
                index: i,
                rank: dims@.len() as usize,
            }),
        },
{
    let rank: usize = dims.len();
    let idx: i128 = if i < 0 {
        i as i128 + rank as i128
    } else {
        i as i128
    };
    if idx < 0 || idx >= rank as i128 {
        Err(ShapeError::DimIndex { index: i, rank })
    } else {
        Ok(dims[idx as usize])
    }
}

/// Shape after a reduction along an axis.
pub open spec fn reduced(s: Seq<usize>, axis: int, keepdim: bool) -> Seq<usize> {
    if keepdim {
        s.update(axis, 1)
    } else if 0 <= axis < s.len() {
        s.remove(axis)
    } else {
        s
    }
}

/// Index after a reduction along an axis.
pub open spec fn reduced_index(idx: Seq<usize>, axis: int, keepdim: bool) -> Seq<usize> {
    if keepdim {
        idx.update(axis, 0)
    } else {
        idx.remove(axis)
    }
}

/// Shape after a reduction along an axis: the axis becomes one, or is left
/// out.
pub fn reduce_axis_shape(in_shape: &Vec<usize>, axis: usize, keepdim: bool) -> (r: Vec<usize>)
    requires
        keepdim ==> axis < in_shape.len(),
    ensures
        r@ == reduced(in_shape@, axis as int, keepdim),
{
    let mut out: Vec<usize> = Vec::new();
    let ghost goal = reduced(in_shape@, axis as int, keepdim);
    let mut i: usize = 0;
    while i < in_shape.len()
        invariant
            i <= in_shape.len(),
            goal == reduced(in_shape@, axis as int, keepdim),
            keepdim ==> axis < in_shape.len(),
            out.len() == (if !keepdim && axis < i {
                i - 1
            } else {
                i as int
            }),
            forall|j: int| 0 <= j < out.len() ==> #[trigger] out@[j] == goal[j],
        decreases in_shape.len() - i,
    {
        if i != axis {
            out.push(in_shape[i]);
        } else if keepdim {
            out.push(1);
        }
        i = i + 1;
    }
    assert(out@ =~= goal);
    out
}

/// An index inside a shape, reduced, lies inside the reduced shape.
pub proof fn reduced_in_range(idx: Seq<usize>, s: Seq<usize>, axis: int, keepdim: bool)
    requires
        shape::in_range(idx, s),
        0 <= axis < s.len(),
    ensures
        shape::in_range(reduced_index(idx, axis, keepdim), reduced(s, axis, keepdim)),
{
    let i = reduced_index(idx, axis, keepdim);
    let t = reduced(s, axis, keepdim);
    assert forall|d: int| 0 <= d < i.len() implies #[trigger] i[d] < t[d] by {
        if keepdim {
            assert(idx[d] < s[d]);
        } else if d < axis {
            assert(idx[d] < s[d]);
        } else {
            assert(idx[d + 1] < s[d + 1]);
        }
    }
}

/// Position after a reduction along an axis.
pub fn reduce_out_flat(
    in_idx: &Vec<usize>,
    axis: usize,
    keepdim: bool,
    out_shape: &Vec<usize>,
) -> (r: usize)
    requires
        axis < in_idx.len(),
        shape::in_range(reduced_index(in_idx@, axis as int, keepdim), out_shape@),
        shape::count(out_shape@) <= usize::MAX,
    ensures
        r == shape::offset(reduced_index(in_idx@, axis as int, keepdim), out_shape@),
        r < shape::count(out_shape@),
{
    let mut idx: Vec<usize> = in_idx.clone();
    if keepdim {
        idx.set(axis, 0);
    } else {
        idx.remove(axis);
    }
    proof {
        shape::offset_round_trip(idx@, out_shape@);
    }
    flatten(&idx, out_shape)
}

/// Position in a reduced tensor to which an element goes.
pub open spec fn reduce_target(flat: nat, s: Seq<usize>, axis: int, keepdim: bool) -> nat {
    shape::offset(
        reduced_index(shape::index_at(flat, s), axis, keepdim),
        reduced(s, axis, keepdim),
    )
}

/// Where the elements of a tensor go in a reduction.
pub open spec fn reduce_targets(s: Seq<usize>, axis: int, keepdim: bool) -> Seq<usize> {
    Seq::new(shape::count(s), |k: int| reduce_target(k as nat, s, axis, keepdim) as usize)
}

/// Folds a tensor along an axis.
pub fn reduce_elements<T: Copy, F: Fn(T, T) -> T>(
    in_data: &Vec<T>,
    in_shape: &Vec<usize>,
    axis: usize,
    keepdim: bool,
    init: T,
    f: F,
) -> (r: Vec<T>)
    requires
        in_data.len() == shape::count(in_shape@),
        axis < in_shape.len(),
        shape::count(reduced(in_shape@, axis as int, keepdim)) <= usize::MAX,
        forall|x: T, y: T| #[trigger] call_requires(f, (x, y)),
    ensures
        r.len() == shape::count(reduced(in_shape@, axis as int, keepdim)),
        forall|s: int|
            0 <= s < r.len() ==> fold::folds(
                f,
                init,
                fold::members(
                    in_data@,
                    reduce_targets(in_shape@, axis as int, keepdim),
                    s,
                    in_data@.len(),
                ),
                #[trigger] r@[s],
            ),
{
    let out_shape = reduce_axis_shape(in_shape, axis, keepdim);
    let n: usize = match element_count(&out_shape) {
        Some(n) => n,
        None => 0,
    };
    let mut table: Vec<usize> = Vec::new();
    let mut k: usize = 0;
    while k < in_data.len()
        invariant
            k <= in_data.len(),
            in_data.len() == shape::count(in_shape@),
            axis < in_shape.len(),
            out_shape@ == reduced(in_shape@, axis as int, keepdim),
            n == shape::count(out_shape@),
            table.len() == k,
            forall|j: int|
                0 <= j < k ==> #[trigger] table@[j] == reduce_target(
                    j as nat,
                    in_shape@,
                    axis as int,
                    keepdim,
                ) && table@[j] < n,
        decreases in_data.len() - k,
    {
        let idx = unflatten(k, in_shape);
        proof {
            shape::index_round_trip(k as nat, in_shape@);
            reduced_in_range(idx@, in_shape@, axis as int, keepdim);
        }
        table.push(reduce_out_flat(&idx, axis, keepdim, &out_shape));
        k = k + 1;
    }
    assert(table@ =~= reduce_targets(in_shape@, axis as int, keepdim));
    fold::scatter_fold(in_data, &table, n, init, f)
}

/// Folds a tensor along an axis that may count from the end; returns the shape
/// and the elements of the result.
pub fn tensor_reduce_axis<T: Copy, F: Fn(T, T) -> T>(
    data: &Vec<T>,
    dims: &Vec<usize>,
    axis: i32,
    keepdim: bool,
    init: T,
    f: F,
) -> (r: Result<(Vec<usize>, Vec<T>), ShapeError>)
    requires
        data.len() == shape::count(dims@),
        dims.len() <= i32::MAX,
        forall|x: T, y: T| #[trigger] call_requires(f, (x, y)),
    ensures
        match axis_dim(axis as int, dims@.len()) {
            None => r == Err::<(Vec<usize>, Vec<T>), ShapeError>(
                ShapeError::Axis { axis, ndims: dims@.len() as usize },
            ),
            Some(a) => match r {
                Err(e) => e == ShapeError::TooLarge && shape::count(reduced(dims@, a, keepdim))
                    > usize::MAX,
                Ok(v) => {
                    &&& v.0@ == reduced(dims@, a, keepdim)
                    &&& v.1@.len() == shape::count(v.0@)
                    &&& forall|s: int|
                        0 <= s < v.1@.len() ==> fold::folds(
                            f,
                            init,
                            fold::members(
                                data@,
                                reduce_targets(dims@, a, keepdim),
                                s,
                                data@.len(),
                            ),
                            #[trigger] v.1@[s],
                        )
                },
            },
        },
{
    let a: usize = match normalize_axis(axis, dims.len()) {
        Ok(a) => a,
        Err(e) => {
            return Err(e);
        },
    };
    let out = reduce_axis_shape(dims, a, keepdim);
    match element_count(&out) {
        None => Err(ShapeError::TooLarge),
        Some(_) => Ok((out, reduce_elements(data, dims, a, keepdim, init, f))),
    }
}

/// Shape with a dimension of one put in before an axis.
pub fn unsqueeze_at(dims: &Vec<usize>, axis: usize) -> (r: Vec<usize>)
    requires
        axis <= dims.len(),
    ensures
        r@ == dims@.insert(axis as int, 1),
{
    let mut out: Vec<usize> = dims.clone();
    out.insert(axis, 1);
    out
}

/// A dimension of one changes neither the number of elements nor what is left
/// when the axis is reduced away.
pub proof fn unsqueeze_keeps_elements(s: Seq<usize>, axis: int)
    requires
        0 <= axis <= s.len(),
    ensures
        shape::count(s.insert(axis, 1)) == shape::count(s),
        reduced(s.insert(axis, 1), axis, false) == s,
    decreases s.len(),
{
    let t = s.insert(axis, 1);
    assert(reduced(t, axis, false) =~= s);
    if axis == s.len() {
        assert(t.drop_last() =~= s);
        assert(shape::count(s) * 1 == shape::count(s));
    } else {
        let u = s.drop_last();
        unsqueeze_keeps_elements(u, axis);
        assert(t.drop_last() =~= u.insert(axis, 1));
        assert(t.last() == s.last());
    }
}

/// A reduction joins exactly the elements that differ along the axis only: two
/// elements go to the same place where all their other indices are the same.
pub proof fn reductions_join_lines(f: nat, g: nat, s: Seq<usize>, axis: int, keepdim: bool)
    requires
        f < shape::count(s),
        g < shape::count(s),
        0 <= axis < s.len(),
    ensures
        reduce_target(f, s, axis, keepdim) == reduce_target(g, s, axis, keepdim) <==> (forall|j: int|
            0 <= j < s.len() && j != axis ==> #[trigger] shape::index_at(f, s)[j]
                == shape::index_at(g, s)[j]),
{
    shape::index_round_trip(f, s);
    shape::index_round_trip(g, s);
    let a = shape::index_at(f, s);
    let b = shape::index_at(g, s);
    reduced_in_range(a, s, axis, keepdim);
    reduced_in_range(b, s, axis, keepdim);
    let x = reduced_index(a, axis, keepdim);
    let y = reduced_index(b, axis, keepdim);
    let t = reduced(s, axis, keepdim);
    shape::offset_round_trip(x, t);
    shape::offset_round_trip(y, t);
    if reduce_target(f, s, axis, keepdim) == reduce_target(g, s, axis, keepdim) {
        assert(x == y);
        assert forall|j: int| 0 <= j < s.len() && j != axis implies #[trigger] a[j] == b[j] by {
            let k = if keepdim || j < axis {
                j
            } else {
                j - 1
            };
            assert(x[k] == a[j] && y[k] == b[j]);
        }
    }
    if forall|j: int| 0 <= j < s.len() && j != axis ==> #[trigger] a[j] == b[j] {
        assert forall|k: int| 0 <= k < x.len() implies x[k] == y[k] by {
            let j = if keepdim || k < axis {
                k
            } else {
                k + 1
            };
            if j != axis {
                assert(a[j] == b[j]);
            }
        }
        assert(x =~= y);
    }
}

} // verus!
