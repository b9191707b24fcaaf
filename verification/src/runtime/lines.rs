//! Lines of elements along an axis, and functions on whole lines.

use crate::runtime::shape;
use crate::runtime::shape::{flatten, unflatten};
use vstd::prelude::*;

verus! {

/// Position of element `a` of the line along an axis on which a position
/// lies.
pub open spec fn line_position(flat: nat, s: Seq<usize>, axis: int, a: int) -> nat {
    shape::offset(shape::index_at(flat, s).update(axis, a as usize), s)
}

/// The line along an axis on which a position lies.
pub open spec fn line<T>(data: Seq<T>, s: Seq<usize>, axis: int, flat: nat) -> Seq<T> {
    Seq::new(s[axis] as nat, |a: int| data[line_position(flat, s, axis, a) as int])
}

/// Whether a position is the first of its line.
pub open spec fn starts_line(flat: nat, s: Seq<usize>, axis: int) -> bool {
    flat < shape::count(s) && shape::index_at(flat, s)[axis] == 0
}

/// Whether a line of `out` is what a function can make of that line of
/// `data`.
pub open spec fn maps_line<T, F: Fn(Vec<T>) -> Vec<T>>(
    f: F,
    data: Seq<T>,
    out: Seq<T>,
    s: Seq<usize>,
    axis: int,
    flat: nat,
) -> bool {
    exists|v: Vec<T>, o: Vec<T>|
        {
            &&& #[trigger] call_ensures(f, (v,), o)
            &&& v@ == line(data, s, axis, flat)
            &&& o@ == line(out, s, axis, flat)
        }
}

/// The positions of a line lie inside the shape and differ from the start only
/// along the axis.
proof fn position_in_line(flat: nat, s: Seq<usize>, axis: int, a: int)
    requires
        flat < shape::count(s),
        0 <= axis < s.len(),
        0 <= a < s[axis],
    ensures
        shape::in_range(shape::index_at(flat, s).update(axis, a as usize), s),
        line_position(flat, s, axis, a) < shape::count(s),
        shape::index_at(line_position(flat, s, axis, a), s) == shape::index_at(flat, s).update(
            axis,
            a as usize,
        ),
{
    shape::index_round_trip(flat, s);
    let idx = shape::index_at(flat, s);
    let moved = idx.update(axis, a as usize);
    assert forall|d: int| 0 <= d < moved.len() implies #[trigger] moved[d] < s[d] by {
        if d != axis {
            assert(idx[d] < s[d]);
        }
    }
    shape::offset_round_trip(moved, s);
}

/// Every position lies on the line that starts where its index along the axis
/// is zero, at its index along the axis.
pub proof fn lines_cover(flat: nat, s: Seq<usize>, axis: int)
    requires
        flat < shape::count(s),
        0 <= axis < s.len(),
    ensures
        starts_line(line_position(flat, s, axis, 0), s, axis),
        shape::index_at(flat, s)[axis] < s[axis],
        line_position(
            line_position(flat, s, axis, 0),
            s,
            axis,
            shape::index_at(flat, s)[axis] as int,
        ) == flat,
{
    shape::index_round_trip(flat, s);
    let idx = shape::index_at(flat, s);
    let a = idx[axis] as int;
    assert(idx[axis] < s[axis]);
    position_in_line(flat, s, axis, 0);
    assert(idx.update(axis, 0).update(axis, a as usize) =~= idx);
}

/// Two lines with different starts have no position in common.
pub proof fn lines_are_disjoint(p: nat, q: nat, s: Seq<usize>, axis: int, a: int, b: int)
    requires
        starts_line(p, s, axis),
        starts_line(q, s, axis),
        0 <= axis < s.len(),
        0 <= a < s[axis],
        0 <= b < s[axis],
        line_position(p, s, axis, a) == line_position(q, s, axis, b),
    ensures
        p == q,
        a == b,
{
    position_in_line(p, s, axis, a);
    position_in_line(q, s, axis, b);
    let i = shape::index_at(p, s);
    let j = shape::index_at(q, s);
    let x = i.update(axis, a as usize);
    let y = j.update(axis, b as usize);
    shape::index_round_trip(p, s);
    shape::index_round_trip(q, s);
    assert(x == y);
    assert(x[axis] == a as usize && y[axis] == b as usize);
    assert(i =~= j) by {
        assert forall|d: int| 0 <= d < i.len() implies i[d] == j[d] by {
            if d != axis {
                assert(x[d] == i[d] && y[d] == j[d]);
            }
        }
    }
}

/// Applies a function to every line along an axis.
pub fn map_lines<T: Copy, F: Fn(Vec<T>) -> Vec<T>>(
    data: &Vec<T>,
    dims: &Vec<usize>,
    axis: usize,
    f: F,
) -> (r: Vec<T>)
    requires
        data.len() == shape::count(dims@),
        axis < dims.len(),
        forall|v: Vec<T>| #[trigger] call_requires(f, (v,)),
        forall|v: Vec<T>, o: Vec<T>| #[trigger] call_ensures(f, (v,), o) ==> o@.len() == v@.len(),
    ensures
        r.len() == data.len(),
        forall|k: nat|
            starts_line(k, dims@, axis as int) ==> #[trigger] maps_line(
                f,
                data@,
                r@,
                dims@,
                axis as int,
                k,
            ),
{
    let n: usize = data.len();
    let mut out: Vec<T> = Vec::new();
    let mut c: usize = 0;
    while c < n
        invariant
            c <= n,
            n == data.len(),
            out.len() == c,
        decreases n - c,
    {
        out.push(data[c]);
        c = c + 1;
    }
    let len: usize = dims[axis];
    let mut k: usize = 0;
    while k < n
        invariant
            k <= n,
            n == data.len(),
            n == shape::count(dims@),
            axis < dims.len(),
            len == dims@[axis as int],
            out.len() == n,
            forall|v: Vec<T>| #[trigger] call_requires(f, (v,)),
            forall|v: Vec<T>, o: Vec<T>|
                #[trigger] call_ensures(f, (v,), o) ==> o@.len() == v@.len(),
            forall|q: nat|
                q < k && starts_line(q, dims@, axis as int) ==> #[trigger] maps_line(
                    f,
                    data@,
                    out@,
                    dims@,
                    axis as int,
                    q,
                ),
        decreases n - k,
    {
        let mut idx = unflatten(k, dims);
        proof {
            shape::index_round_trip(k as nat, dims@);
        }
        if idx[axis] == 0 {
            let ghost first = idx@;
            let mut v: Vec<T> = Vec::new();
            let mut a: usize = 0;
            while a < len
                invariant
                    a <= len,
                    k < n,
                    n == data.len(),
                    n == shape::count(dims@),
                    axis < dims.len(),
                    len == dims@[axis as int],
                    first == shape::index_at(k as nat, dims@),
                    first.len() == dims.len(),
                    idx.len() == dims.len(),
                    idx@.update(axis as int, 0) == first.update(axis as int, 0),
                    v.len() == a,
                    forall|j: int|
                        0 <= j < a ==> #[trigger] v@[j] == data@[line_position(
                            k as nat,
                            dims@,
                            axis as int,
                            j,
                        ) as int],
                decreases len - a,
            {
                let ghost before = idx@;
                idx.set(axis, a);
                proof {
                    position_in_line(k as nat, dims@, axis as int, a as int);
                    assert(idx@ =~= first.update(axis as int, a)) by {
                        assert forall|d: int| 0 <= d < idx@.len() implies idx@[d] == first.update(
                            axis as int,
                            a,
                        )[d] by {
                            assert(before.update(axis as int, 0)[d] == first.update(
                                axis as int,
                                0,
                            )[d]);
                        }
                    }
                    assert(idx@.update(axis as int, 0) =~= first.update(axis as int, 0));
                }
                let at: usize = flatten(&idx, dims);
                v.push(data[at]);
                a = a + 1;
            }
            assert(v@ =~= line(data@, dims@, axis as int, k as nat));
            let ghost arg = v;
            let o = f(v);
            let ghost prior = out@;
            let mut b: usize = 0;
            while b < len
                invariant
                    b <= len,
                    k < n,
                    n == shape::count(dims@),
                    axis < dims.len(),
                    len == dims@[axis as int],
                    first == shape::index_at(k as nat, dims@),
                    first.len() == dims.len(),
                    idx.len() == dims.len(),
                    idx@.update(axis as int, 0) == first.update(axis as int, 0),
                    o.len() == len,
                    out.len() == n,
                    prior.len() == n,
                    starts_line(k as nat, dims@, axis as int),
                    forall|j: int|
                        0 <= j < b ==> out@[line_position(
                            k as nat,
                            dims@,
                            axis as int,
                            j,
                        ) as int] == #[trigger] o@[j],
                    forall|p: int|
                        0 <= p < n && (forall|j: int|
                            0 <= j < len ==> p != #[trigger] line_position(
                                k as nat,
                                dims@,
                                axis as int,
                                j,
                            )) ==> #[trigger] out@[p] == prior[p],
                decreases len - b,
            {
                let ghost before = idx@;
                let ghost was = out@;
                idx.set(axis, b);
                proof {
                    position_in_line(k as nat, dims@, axis as int, b as int);
                    assert(idx@ =~= first.update(axis as int, b)) by {
                        assert forall|d: int| 0 <= d < idx@.len() implies idx@[d] == first.update(
                            axis as int,
                            b,
                        )[d] by {
                            assert(before.update(axis as int, 0)[d] == first.update(
                                axis as int,
                                0,
                            )[d]);
                        }
                    }
                    assert(idx@.update(axis as int, 0) =~= first.update(axis as int, 0));
                }
                let at: usize = flatten(&idx, dims);
                out.set(at, o[b]);
                proof {
                    assert forall|j: int| 0 <= j < b + 1 implies out@[line_position(
                        k as nat,
                        dims@,
                        axis as int,
                        j,
                    ) as int] == #[trigger] o@[j] by {
                        position_in_line(k as nat, dims@, axis as int, j);
                        if j < b && line_position(k as nat, dims@, axis as int, j) == at {
                            lines_are_disjoint(
                                k as nat,
                                k as nat,
                                dims@,
                                axis as int,
                                j,
                                b as int,
                            );
                        }
                    }
                }
                b = b + 1;
            }
            proof {
                assert(o@ =~= line(out@, dims@, axis as int, k as nat));
                assert(call_ensures(f, (arg,), o));
                assert(maps_line(f, data@, out@, dims@, axis as int, k as nat));
                assert forall|q: nat|
                    q < k + 1 && starts_line(q, dims@, axis as int) implies #[trigger] maps_line(
                    f,
                    data@,
                    out@,
                    dims@,
                    axis as int,
                    q,
                ) by {
                    if q != k {
                        assert(maps_line(f, data@, prior, dims@, axis as int, q));
                        assert(line(out@, dims@, axis as int, q) =~= line(
                            prior,
                            dims@,
                            axis as int,
                            q,
                        )) by {
                            assert forall|i: int| 0 <= i < len implies line(
                                out@,
                                dims@,
                                axis as int,
                                q,
                            )[i] == line(prior, dims@, axis as int, q)[i] by {
                                position_in_line(q, dims@, axis as int, i);
                                let p = line_position(q, dims@, axis as int, i) as int;
                                assert forall|j: int| 0 <= j < len implies p
                                    != #[trigger] line_position(
                                    k as nat,
                                    dims@,
                                    axis as int,
                                    j,
                                ) by {
                                    if p == line_position(k as nat, dims@, axis as int, j) {
                                        lines_are_disjoint(
                                            q,
                                            k as nat,
                                            dims@,
                                            axis as int,
                                            i,
                                            j,
                                        );
                                    }
                                }
                                assert(out@[p] == prior[p]);
                            }
                        }
                    }
                }
            }
        } else {
            proof {
                assert(!starts_line(k as nat, dims@, axis as int));
            }
        }
        k = k + 1;
    }
    out
}

} // verus!
