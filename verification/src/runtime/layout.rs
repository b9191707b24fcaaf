//! Broadcasting: the shape of a result, and which element of an operand each
//! element of it comes from.

use crate::runtime::fold;
use crate::runtime::shape;
use crate::runtime::shape::{element_count, flatten, unflatten};
use vstd::prelude::*;

verus! {

/// Why shapes do not fit together.
#[derive(Clone, Copy, Debug, PartialEq, Eq, Structural)]
pub enum ShapeError {
    /// Dimensions that cannot be broadcast.
    Broadcast { dim: usize, left: usize, right: usize },
    /// An axis outside the dimensions.
    Axis { axis: i32, ndims: usize },
    /// A transpose without arguments of a tensor that is not a matrix.
    TransposeRank { rank: usize },
    /// A transpose of axes outside the dimensions.
    SwapRange { i: usize, j: usize, rank: usize },
    /// A permutation entry outside the dimensions.
    PermuteRange { dim: usize, rank: usize },
    /// A permutation entry that occurs twice.
    PermuteDuplicate { dim: usize },
    /// A permutation with the wrong number of entries.
    PermuteArity { given: usize, rank: usize },
    /// A reshape that changes the number of elements.
    Reshape { have: usize, want: usize },
    /// A dimension number outside the dimensions.
    DimIndex { index: i64, rank: usize },
    /// A matrix product of unsupported ranks.
    MatmulRank { left: usize, right: usize },
    /// A matrix product whose inner dimensions differ.
    MatmulInner { left: usize, right: usize },
    /// A batched matrix product whose batch sizes differ.
    MatmulBatch { left: usize, right: usize },
    /// An operand of the wrong rank.
    Rank { have: usize, want: usize },
    /// Operands of different lengths.
    Length { left: usize, right: usize },
    /// A row number outside the table.
    RowRange { row: usize, rows: usize },
    /// More elements than a machine word can count.
    TooLarge,
}

/// Dimension `i` of `n` of a shape that is padded with ones on the left.
pub open spec fn padded(s: Seq<usize>, n: nat, i: int) -> usize {
    if i + s.len() >= n {
        s[i + s.len() - n]
    } else {
        1
    }
}

/// The common size of two dimensions: equal, or one of them one.
pub open spec fn merged(x: usize, y: usize) -> Option<usize> {
    if x == y || y == 1 {
        Some(x)
    } else if x == 1 {
        Some(y)
    } else {
        None
    }
}

pub open spec fn longer(a: Seq<usize>, b: Seq<usize>) -> nat {
    if a.len() >= b.len() {
        a.len()
    } else {
        b.len()
    }
}

/// Whether two shapes cannot be merged at a dimension.
pub open spec fn clashes(a: Seq<usize>, b: Seq<usize>, i: int) -> bool {
    merged(padded(a, longer(a, b), i), padded(b, longer(a, b), i)) is None
}

/// Whether `r` is the shape to which `a` and `b` broadcast.
pub open spec fn broadcasts(a: Seq<usize>, b: Seq<usize>, r: Seq<usize>) -> bool {
    &&& r.len() == longer(a, b)
    &&& forall|i: int|
        0 <= i < r.len() ==> merged(padded(a, r.len(), i), padded(b, r.len(), i)) == Some(
            #[trigger] r[i],
        )
}

/// Whether `e` tells the first dimension at which two shapes cannot be merged.
pub open spec fn first_clash(a: Seq<usize>, b: Seq<usize>, e: ShapeError) -> bool {
    exists|i: int|
        {
            &&& 0 <= i < longer(a, b)
            &&& #[trigger] clashes(a, b, i)
            &&& forall|j: int| 0 <= j < i ==> !#[trigger] clashes(a, b, j)
            &&& e == (ShapeError::Broadcast {
                dim: i as usize,
                left: padded(a, longer(a, b), i),
                right: padded(b, longer(a, b), i),
            })
        }
}

/// Whether a shape can be stretched to another one.
pub open spec fn stretches(s: Seq<usize>, out: Seq<usize>) -> bool {
    &&& s.len() <= out.len()
    &&& forall|d: int|
        0 <= d < s.len() ==> #[trigger] s[d] == 1 || s[d] == out[d + out.len() - s.len()]
}

/// Broadcasting does not depend on the order of its operands.
pub proof fn broadcast_commutes(a: Seq<usize>, b: Seq<usize>, r: Seq<usize>)
    ensures
        broadcasts(a, b, r) <==> broadcasts(b, a, r),
{
    assert(longer(a, b) == longer(b, a));
    if broadcasts(a, b, r) {
        assert(broadcasts(b, a, r));
    }
    if broadcasts(b, a, r) {
        assert(broadcasts(a, b, r));
    }
}

/// Both operands can be stretched to the shape to which they broadcast.
pub proof fn broadcast_stretches(a: Seq<usize>, b: Seq<usize>, r: Seq<usize>)
    requires
        broadcasts(a, b, r),
    ensures
        stretches(a, r),
        stretches(b, r),
{
    assert forall|d: int| 0 <= d < a.len() implies #[trigger] a[d] == 1 || a[d] == r[d + r.len()
        - a.len()] by {
        assert(merged(
            padded(a, r.len(), d + r.len() - a.len()),
            padded(b, r.len(), d + r.len() - a.len()),
        ) == Some(r[d + r.len() - a.len()]));
    }
    assert forall|d: int| 0 <= d < b.len() implies #[trigger] b[d] == 1 || b[d] == r[d + r.len()
        - b.len()] by {
        assert(merged(
            padded(a, r.len(), d + r.len() - b.len()),
            padded(b, r.len(), d + r.len() - b.len()),
        ) == Some(r[d + r.len() - b.len()]));
    }
}

/// A shape broadcasts with itself, and with the shape of a scalar, to itself.
pub proof fn broadcast_identity(a: Seq<usize>)
    ensures
        broadcasts(a, a, a),
        broadcasts(a, Seq::empty(), a),
{
}

/// The shape to which two shapes broadcast, aligned on the right.
pub fn broadcast_result_shape(sa: &Vec<usize>, sb: &Vec<usize>) -> (r: Result<
    Vec<usize>,
    ShapeError,
>)
    ensures
        match r {
            Ok(v) => broadcasts(sa@, sb@, v@),
            Err(e) => first_clash(sa@, sb@, e),
        },
{
    let n: usize = if sa.len() >= sb.len() {
        sa.len()
    } else {
        sb.len()
    };
    let mut out: Vec<usize> = Vec::new();
    let mut i: usize = 0;
    while i < n
        invariant
            i <= n,
            n == longer(sa@, sb@),
            out.len() == i,
            forall|j: int|
                0 <= j < i ==> merged(padded(sa@, n as nat, j), padded(sb@, n as nat, j)) == Some(
                    #[trigger] out@[j],
                ),
            forall|j: int| 0 <= j < i ==> !#[trigger] clashes(sa@, sb@, j),
        decreases n - i,
    {
        let da: usize = if i >= n - sa.len() {
            sa[i - (n - sa.len())]
        } else {
            1
        };
        let db: usize = if i >= n - sb.len() {
            sb[i - (n - sb.len())]
        } else {
            1
        };
        assert(da == padded(sa@, n as nat, i as int));
        assert(db == padded(sb@, n as nat, i as int));
        if da == db || db == 1 {
            out.push(da);
        } else if da == 1 {
            out.push(db);
        } else {
            assert(clashes(sa@, sb@, i as int));
            return Err(ShapeError::Broadcast { dim: i, left: da, right: db });
        }
        i = i + 1;
    }
    Ok(out)
}

/// Index into a shape that is stretched: dimensions of size one stay at zero.
pub open spec fn source_index(idx: Seq<usize>, s: Seq<usize>) -> Seq<usize> {
    Seq::new(
        s.len(),
        |d: int|
            if s[d] == 1 {
                0
            } else {
                idx[d + idx.len() - s.len()]
            },
    )
}

/// Position in a tensor of shape `s` of what stands at position `flat` once it
/// is stretched to `out`.
pub open spec fn source(flat: nat, out: Seq<usize>, s: Seq<usize>) -> nat {
    shape::offset(source_index(shape::index_at(flat, out), s), s)
}

/// The source of a position lies inside the tensor that is stretched.
pub proof fn source_in_range(flat: nat, out: Seq<usize>, s: Seq<usize>)
    requires
        flat < shape::count(out),
        stretches(s, out),
    ensures
        shape::in_range(source_index(shape::index_at(flat, out), s), s),
        source(flat, out, s) < shape::count(s),
{
    let idx = shape::index_at(flat, out);
    shape::index_round_trip(flat, out);
    let src = source_index(idx, s);
    assert forall|d: int| 0 <= d < src.len() implies #[trigger] src[d] < s[d] by {
        assert(s[d] == 1 || s[d] == out[d + out.len() - s.len()]);
        assert(idx[d + out.len() - s.len()] < out[d + out.len() - s.len()]);
    }
    shape::offset_round_trip(src, s);
}

/// A tensor that is stretched to its own shape keeps every element in place.
pub proof fn source_of_same_shape(flat: nat, s: Seq<usize>)
    requires
        flat < shape::count(s),
    ensures
        source(flat, s, s) == flat,
{
    let idx = shape::index_at(flat, s);
    shape::index_round_trip(flat, s);
    assert(source_index(idx, s) =~= idx) by {
        assert forall|d: int| 0 <= d < s.len() implies source_index(idx, s)[d] == idx[d] by {
            assert(idx[d] < s[d]);
        }
    }
}

/// Position in a tensor of shape `s` of what stands at position `flat` once it
/// is stretched to `out`.
pub fn broadcast_source(flat: usize, out: &Vec<usize>, s: &Vec<usize>) -> (r: usize)
    requires
        flat < shape::count(out@),
        stretches(s@, out@),
        shape::count(s@) <= usize::MAX,
    ensures
        r == source(flat as nat, out@, s@),
        r < shape::count(s@),
{
    let idx = unflatten(flat, out);
    let mut src: Vec<usize> = Vec::new();
    proof {
        shape::index_round_trip(flat as nat, out@);
        source_in_range(flat as nat, out@, s@);
    }
    let mut d: usize = 0;
    while d < s.len()
        invariant
            d <= s.len(),
            s.len() <= out.len(),
            idx.len() == out.len(),
            src@ =~= source_index(idx@, s@).take(d as int),
        decreases s.len() - d,
    {
        if s[d] == 1 {
            src.push(0);
        } else {
            src.push(idx[d + (out.len() - s.len())]);
        }
        d = d + 1;
    }
    assert(src@ =~= source_index(idx@, s@));
    flatten(&src, s)
}

/// Combines two tensors elementwise, each stretched to the common shape.
pub fn broadcast_cpu_loop<T: Copy, F: Fn(T, T) -> T>(
    a: &Vec<T>,
    a_shape: &Vec<usize>,
    b: &Vec<T>,
    b_shape: &Vec<usize>,
    out_shape: &Vec<usize>,
    op: F,
) -> (r: Vec<T>)
    requires
        a.len() == shape::count(a_shape@),
        b.len() == shape::count(b_shape@),
        stretches(a_shape@, out_shape@),
        stretches(b_shape@, out_shape@),
        shape::count(out_shape@) <= usize::MAX,
        forall|x: T, y: T| #[trigger] call_requires(op, (x, y)),
    ensures
        r.len() == shape::count(out_shape@),
        forall|k: int|
            0 <= k < r.len() ==> call_ensures(
                op,
                (
                    a@[source(k as nat, out_shape@, a_shape@) as int],
                    b@[source(k as nat, out_shape@, b_shape@) as int],
                ),
                #[trigger] r@[k],
            ),
{
    let n: usize = match element_count(out_shape) {
        Some(n) => n,
        None => 0,
    };
    let mut out: Vec<T> = Vec::new();
    let mut k: usize = 0;
    while k < n
        invariant
            k <= n,
            n == shape::count(out_shape@),
            a.len() == shape::count(a_shape@),
            b.len() == shape::count(b_shape@),
            stretches(a_shape@, out_shape@),
            stretches(b_shape@, out_shape@),
            forall|x: T, y: T| #[trigger] call_requires(op, (x, y)),
            out.len() == k,
            forall|j: int|
                0 <= j < k ==> call_ensures(
                    op,
                    (
                        a@[source(j as nat, out_shape@, a_shape@) as int],
                        b@[source(j as nat, out_shape@, b_shape@) as int],
                    ),
                    #[trigger] out@[j],
                ),
        decreases n - k,
    {
        let i: usize = broadcast_source(k, out_shape, a_shape);
        let j: usize = broadcast_source(k, out_shape, b_shape);
        out.push(op(a[i], b[j]));
        k = k + 1;
    }
    out
}

/// Stretches a tensor to a larger shape.
pub fn broadcast_to_shape<T: Copy>(
    data: &Vec<T>,
    s: &Vec<usize>,
    out_shape: &Vec<usize>,
) -> (r: Vec<T>)
    requires
        data.len() == shape::count(s@),
        stretches(s@, out_shape@),
        shape::count(out_shape@) <= usize::MAX,
    ensures
        r.len() == shape::count(out_shape@),
        forall|k: int|
            0 <= k < r.len() ==> #[trigger] r@[k] == data@[source(
                k as nat,
                out_shape@,
                s@,
            ) as int],
{
    let n: usize = match element_count(out_shape) {
        Some(n) => n,
        None => 0,
    };
    let mut out: Vec<T> = Vec::new();
    let mut k: usize = 0;
    while k < n
        invariant
            k <= n,
            n == shape::count(out_shape@),
            data.len() == shape::count(s@),
            stretches(s@, out_shape@),
            out.len() == k,
            forall|j: int|
                0 <= j < k ==> #[trigger] out@[j] == data@[source(
                    j as nat,
                    out_shape@,
                    s@,
                ) as int],
        decreases n - k,
    {
        let i: usize = broadcast_source(k, out_shape, s);
        out.push(data[i]);
        k = k + 1;
    }
    out
}

/// Where each element of a stretched tensor came from.
fn source_table(from: &Vec<usize>, s: &Vec<usize>, n: usize) -> (r: Vec<usize>)
    requires
        n == shape::count(from@),
        stretches(s@, from@),
        shape::count(s@) <= usize::MAX,
    ensures
        r.len() == n,
        forall|k: int|
            0 <= k < n ==> #[trigger] r@[k] == source(k as nat, from@, s@) && r@[k] < shape::count(
                s@,
            ),
{
    let mut out: Vec<usize> = Vec::new();
    let mut k: usize = 0;
    while k < n
        invariant
            k <= n,
            n == shape::count(from@),
            stretches(s@, from@),
            shape::count(s@) <= usize::MAX,
            out.len() == k,
            forall|j: int|
                0 <= j < k ==> #[trigger] out@[j] == source(j as nat, from@, s@) && out@[j]
                    < shape::count(s@),
        decreases n - k,
    {
        out.push(broadcast_source(k, from, s));
        k = k + 1;
    }
    out
}

/// The source table of a stretch, as a sequence.
pub open spec fn sources(from: Seq<usize>, s: Seq<usize>) -> Seq<usize> {
    Seq::new(shape::count(from), |k: int| source(k as nat, from, s) as usize)
}

/// Undoes a stretch by folding together all the elements that came from one.
pub fn sum_to_shape<T: Copy, F: Fn(T, T) -> T>(
    data: &Vec<T>,
    from: &Vec<usize>,
    target: &Vec<usize>,
    zero: T,
    f: F,
) -> (r: Vec<T>)
    requires
        data.len() == shape::count(from@),
        stretches(target@, from@),
        shape::count(target@) <= usize::MAX,
        forall|x: T, y: T| #[trigger] call_requires(f, (x, y)),
    ensures
        r.len() == shape::count(target@),
        forall|s: int|
            0 <= s < r.len() ==> fold::folds(
                f,
                zero,
                fold::members(data@, sources(from@, target@), s, data@.len()),
                #[trigger] r@[s],
            ),
{
    let table = source_table(from, target, data.len());
    assert(table@ =~= sources(from@, target@));
    let n: usize = match element_count(target) {
        Some(n) => n,
        None => 0,
    };
    fold::scatter_fold(data, &table, n, zero, f)
}

/// Combines two tensors elementwise in the shape to which theirs broadcast;
/// returns the shape and the elements of the result.
pub fn tensor_broadcast_op<T: Copy, F: Fn(T, T) -> T>(
    a: &Vec<T>,
    a_shape: &Vec<usize>,
    b: &Vec<T>,
    b_shape: &Vec<usize>,
    op: F,
) -> (r: Result<(Vec<usize>, Vec<T>), ShapeError>)
    requires
        a.len() == shape::count(a_shape@),
        b.len() == shape::count(b_shape@),
        forall|x: T, y: T| #[trigger] call_requires(op, (x, y)),
    ensures
        match r {
            Ok(v) => {
                &&& broadcasts(a_shape@, b_shape@, v.0@)
                &&& v.1@.len() == shape::count(v.0@)
                &&& forall|k: int|
                    0 <= k < v.1@.len() ==> call_ensures(
                        op,
                        (
                            a@[source(k as nat, v.0@, a_shape@) as int],
                            b@[source(k as nat, v.0@, b_shape@) as int],
                        ),
                        #[trigger] v.1@[k],
                    )
            },
            Err(e) => first_clash(a_shape@, b_shape@, e) || (e == ShapeError::TooLarge && exists|
                out: Seq<usize>,
            | #[trigger] broadcasts(a_shape@, b_shape@, out) && shape::count(out) > usize::MAX),
        },
{
    match broadcast_result_shape(a_shape, b_shape) {
        Err(e) => Err(e),
        Ok(out) => {
            proof {
                broadcast_stretches(a_shape@, b_shape@, out@);
            }
            match element_count(&out) {
                None => Err(ShapeError::TooLarge),
                Some(_) => {
                    let data = broadcast_cpu_loop(a, a_shape, b, b_shape, &out, op);
                    Ok((out, data))
                },
            }
        },
    }
}

} // verus!
