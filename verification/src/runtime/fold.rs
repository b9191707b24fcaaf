//! Accumulation over tensor elements, for any element type and any step.

use vstd::prelude::*;

verus! {

/// Whether `r` is what a step function can make of `init` and the elements of
/// `xs`, taken in order.
pub open spec fn folds<T, F: Fn(T, T) -> T>(f: F, init: T, xs: Seq<T>, r: T) -> bool
    decreases xs.len(),
{
    if xs.len() == 0 {
        r == init
    } else {
        exists|p: T|
            folds(f, init, xs.drop_last(), p) && #[trigger] call_ensures(f, (p, xs.last()), r)
    }
}

/// Whether `r` is what a multiply-and-add step can make of `init` and the
/// pairs `(xs[k], ys[k])`, taken in order.
pub open spec fn folds_pairs<T, F: Fn(T, T, T) -> T>(
    f: F,
    init: T,
    xs: Seq<T>,
    ys: Seq<T>,
    r: T,
) -> bool
    decreases xs.len(),
{
    if xs.len() == 0 {
        r == init
    } else {
        exists|p: T|
            folds_pairs(f, init, xs.drop_last(), ys.drop_last(), p) && #[trigger] call_ensures(
                f,
                (p, xs.last(), ys.last()),
                r,
            )
    }
}

/// The first `n` elements that go to `slot`, in order.
pub open spec fn members<T>(data: Seq<T>, target: Seq<usize>, slot: int, n: nat) -> Seq<T>
    decreases n,
{
    if n == 0 {
        Seq::empty()
    } else {
        let rest = members(data, target, slot, (n - 1) as nat);
        if target[n - 1] == slot {
            rest.push(data[n - 1])
        } else {
            rest
        }
    }
}

/// Folds every element into the slot that `target` gives it, in order.
pub fn scatter_fold<T: Copy, F: Fn(T, T) -> T>(
    data: &Vec<T>,
    target: &Vec<usize>,
    slots: usize,
    init: T,
    f: F,
) -> (r: Vec<T>)
    requires
        data.len() == target.len(),
        forall|k: int| 0 <= k < target.len() ==> #[trigger] target@[k] < slots,
        forall|x: T, y: T| #[trigger] call_requires(f, (x, y)),
    ensures
        r.len() == slots,
        forall|s: int|
            0 <= s < slots ==> folds(
                f,
                init,
                members(data@, target@, s, data@.len()),
                #[trigger] r@[s],
            ),
{
    let mut out: Vec<T> = Vec::new();
    let mut j: usize = 0;
    while j < slots
        invariant
            j <= slots,
            out.len() == j,
            forall|s: int| 0 <= s < j ==> #[trigger] out@[s] == init,
        decreases slots - j,
    {
        out.push(init);
        j = j + 1;
    }
    let mut k: usize = 0;
    while k < data.len()
        invariant
            k <= data.len(),
            data.len() == target.len(),
            out.len() == slots,
            forall|i: int| 0 <= i < target.len() ==> #[trigger] target@[i] < slots,
            forall|x: T, y: T| #[trigger] call_requires(f, (x, y)),
            forall|s: int|
                0 <= s < slots ==> folds(
                    f,
                    init,
                    members(data@, target@, s, k as nat),
                    #[trigger] out@[s],
                ),
        decreases data.len() - k,
    {
        let t: usize = target[k];
        let ghost before = out@;
        assert(target@[k as int] < slots);
        let v = f(out[t], data[k]);
        out.set(t, v);
        proof {
            assert forall|s: int| 0 <= s < slots implies folds(
                f,
                init,
                members(data@, target@, s, (k + 1) as nat),
                #[trigger] out@[s],
            ) by {
                let now = members(data@, target@, s, (k + 1) as nat);
                let was = members(data@, target@, s, k as nat);
                assert(folds(f, init, was, before[s]));
                if s == t {
                    assert(now == was.push(data@[k as int]));
                    assert(now.drop_last() =~= was);
                    assert(now.last() == data@[k as int]);
                    assert(folds(f, init, now.drop_last(), before[s]) && call_ensures(
                        f,
                        (before[s], now.last()),
                        v,
                    ));
                    assert(folds(f, init, now, v));
                } else {
                    assert(now == was);
                }
            }
        }
        k = k + 1;
    }
    out
}

} // verus!
