//! Printing of tensors: elements in nested brackets.

use crate::runtime::shape;
use crate::text;
use crate::text::signed_decimal_of;
use vstd::prelude::*;

verus! {

/// Rendering of the part of a tensor behind its first `d` coordinates, which
/// starts at position `off`.
pub open spec fn nested(items: Seq<Seq<char>>, dims: Seq<usize>, d: nat, off: nat) -> Seq<char>
    decreases dims.len() - d, 0nat, 0nat,
{
    if d >= dims.len() {
        items[off as int]
    } else {
        "["@ + entries(items, dims, d, off, 0) + "]"@
    }
}

/// Rendering of the entries of dimension `d`, from entry `i` on.
pub open spec fn entries(
    items: Seq<Seq<char>>,
    dims: Seq<usize>,
    d: nat,
    off: nat,
    i: nat,
) -> Seq<char>
    decreases dims.len() - d - 1, 1nat, dims[d as int] - i,
    when d < dims.len()
{
    if i >= dims[d as int] {
        Seq::empty()
    } else {
        (if i > 0 {
            ", "@
        } else {
            Seq::empty()
        }) + nested(items, dims, d + 1, off + i * shape::stride(dims, d as int)) + entries(
            items,
            dims,
            d,
            off,
            i + 1,
        )
    }
}

/// Entry `i` of a dimension lies inside the part that the dimension spans.
proof fn entry_inside(dims: Seq<usize>, d: int, i: int)
    requires
        0 <= d < dims.len(),
        0 <= i < dims[d],
    ensures
        i * shape::stride(dims, d) + shape::stride(dims, d) <= shape::count(dims.skip(d)),
        0 <= i * shape::stride(dims, d),
{
    let s = dims.skip(d);
    first_dimension(s);
    assert(s.skip(1) =~= dims.skip(d + 1));
    assert(s[0] == dims[d]);
    let st = shape::stride(dims, d) as int;
    let n = dims[d] as int;
    assert(i * st + st <= n * st && 0 <= i * st) by (nonlinear_arith)
        requires
            0 <= i < n,
            0 <= st,
    ;
}

proof fn first_dimension(s: Seq<usize>)
    requires
        s.len() > 0,
    ensures
        shape::count(s) == (s[0] as nat) * shape::count(s.skip(1)),
    decreases s.len(),
{
    if s.len() == 1 {
        assert(s.drop_last() =~= Seq::<usize>::empty());
        assert(s.skip(1) =~= Seq::<usize>::empty());
        assert(1 * s[0] as nat == s[0] as nat * 1);
    } else {
        let t = s.drop_last();
        first_dimension(t);
        assert(t.skip(1) =~= s.skip(1).drop_last());
        let a = s[0] as nat;
        let b = shape::count(t.skip(1));
        let c = s.last() as nat;
        assert((a * b) * c == a * (b * c)) by (nonlinear_arith);
    }
}

fn suffix(dims: &Vec<usize>, from: usize) -> (r: Vec<usize>)
    requires
        from <= dims.len(),
    ensures
        r@ == dims@.skip(from as int),
{
    let mut out: Vec<usize> = Vec::new();
    let mut i: usize = from;
    while i < dims.len()
        invariant
            from <= i <= dims.len(),
            out@ =~= dims@.subrange(from as int, i as int),
        decreases dims.len() - i,
    {
        out.push(dims[i]);
        i = i + 1;
    }
    assert(dims@.subrange(from as int, dims.len() as int) =~= dims@.skip(from as int));
    out
}

fn nested_text(items: &Vec<String>, dims: &Vec<usize>, d: usize, off: usize) -> (r: String)
    requires
        d <= dims.len(),
        off + shape::count(dims@.skip(d as int)) <= items.len(),
    ensures
        r@ == nested(text::texts(items@), dims@, d as nat, off as nat),
    decreases dims.len() - d,
{
    let ghost ts = text::texts(items@);
    if d >= dims.len() {
        proof {
            assert(dims@.skip(d as int) =~= Seq::<usize>::empty());
        }
        assert(ts[off as int] == items@[off as int]@);
        return items[off].clone();
    }
    let tail = suffix(dims, d + 1);
    let mut out: String = "[".to_string();
    if dims[d] > 0 {
        proof {
            entry_inside(dims@, d as int, 0);
        }
        let stride: usize = match shape::element_count(&tail) {
            Some(s) => s,
            None => 0,
        };
        let mut i: usize = 0;
        proof {
            assert(0 * shape::stride(dims@, d as int) == 0);
            assert("["@ + entries(ts, dims@, d as nat, off as nat, 0) =~= out@ + entries(
                ts,
                dims@,
                d as nat,
                off as nat,
                0,
            ));
        }
        while i < dims[d]
            invariant
                i <= dims@[d as int],
                d < dims.len(),
                off + shape::count(dims@.skip(d as int)) <= items.len(),
                stride == shape::stride(dims@, d as int),
                ts == text::texts(items@),
                "["@ + entries(ts, dims@, d as nat, off as nat, 0) == out@ + entries(
                    ts,
                    dims@,
                    d as nat,
                    off as nat,
                    i as nat,
                ),
            decreases dims@[d as int] - i,
        {
            proof {
                entry_inside(dims@, d as int, i as int);
            }
            let ghost before = out@;
            if i > 0 {
                out.append(", ");
            }
            let part = nested_text(items, dims, d + 1, off + i * stride);
            out.append(part.as_str());
            proof {
                let sep = if i > 0 {
                    ", "@
                } else {
                    Seq::empty()
                };
                let rest = entries(ts, dims@, d as nat, off as nat, (i + 1) as nat);
                assert(before + (sep + part@ + rest) =~= out@ + rest);
            }
            i = i + 1;
        }
    }
    proof {
        assert(out@ + Seq::<char>::empty() =~= out@);
    }
    out.append("]");
    out
}

/// Renders a tensor from its rendered elements.
pub fn print_nd(items: &Vec<String>, dims: &Vec<usize>) -> (r: String)
    requires
        items.len() == shape::count(dims@),
    ensures
        r@ == nested(text::texts(items@), dims@, 0, 0),
{
    assert(dims@.skip(0) =~= dims@);
    nested_text(items, dims, 0, 0)
}

/// Renders a tensor of integers.
pub fn print_nd_i64(data: &Vec<i64>, dims: &Vec<usize>) -> (r: String)
    requires
        data.len() == shape::count(dims@),
    ensures
        r@ == nested(
            data@.map_values(|v: i64| text::signed_decimal(v as int)),
            dims@,
            0,
            0,
        ),
{
    let mut items: Vec<String> = Vec::new();
    let mut i: usize = 0;
    while i < data.len()
        invariant
            i <= data.len(),
            items.len() == i,
            forall|j: int|
                0 <= j < i ==> (#[trigger] items@[j])@ == text::signed_decimal(data@[j] as int),
        decreases data.len() - i,
    {
        items.push(signed_decimal_of(data[i]));
        i = i + 1;
    }
    assert(text::texts(items@) =~= data@.map_values(|v: i64| text::signed_decimal(v as int)));
    print_nd(&items, dims)
}

} // verus!
