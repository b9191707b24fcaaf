//! Every intermediate gradient of a backward pass is used while it exists and
//! given up exactly once.

use crate::runtime::backward;
use crate::runtime::backward::{PlanV, StepV, Value};
use crate::runtime::memory;
use crate::runtime::memory::MemV;
use crate::runtime::tags::{BwdSlot, OpTag};
use crate::runtime::tape::NodeV;
use vstd::prelude::*;

verus! {

/// Results that exist after a step: one is made, released, or handed to the
/// registry.
pub open spec fn after_step(held: Set<int>, s: StepV, n: int) -> Set<int> {
    match s {
        StepV::Ones { .. } | StepV::Call { .. } | StepV::Reshape { .. } => held.insert(n),
        StepV::Release(Value::Temp(t)) => held.remove(t as int),
        StepV::Release(_) => held,
        StepV::Store { value, .. } => held.remove(value as int),
    }
}

/// Results that exist after a list of steps.
pub open spec fn held(steps: Seq<StepV>) -> Set<int>
    decreases steps.len(),
{
    if steps.len() == 0 {
        Set::empty()
    } else {
        after_step(held(steps.drop_last()), steps.last(), steps.len() - 1)
    }
}

/// Whether the results that a step uses exist.
pub open spec fn uses_held(s: StepV, h: Set<int>) -> bool {
    match s {
        StepV::Ones { .. } => true,
        StepV::Call { args, .. } => forall|i: int|
            0 <= i < args.len() ==> match #[trigger] args[i] {
                Value::Temp(t) => h.contains(t as int),
                _ => true,
            },
        StepV::Reshape { of, .. } => h.contains(of as int),
        StepV::Release(Value::Temp(t)) => h.contains(t as int),
        StepV::Release(_) => true,
        StepV::Store { value, .. } => h.contains(value as int),
    }
}

/// Whether every step uses only results that exist.
pub open spec fn sound(steps: Seq<StepV>) -> bool
    decreases steps.len(),
{
    steps.len() == 0 || (sound(steps.drop_last()) && uses_held(
        steps.last(),
        held(steps.drop_last()),
    ))
}

/// Whether the results that exist are exactly the gradients of the plan and
/// `rest`, each once.
spec fn linear(p: PlanV, rest: Seq<usize>) -> bool {
    &&& sound(p.steps)
    &&& forall|i: int| 0 <= i < p.grads.len() ==> held(p.steps).contains(
        (#[trigger] p.grads[i]).1 as int,
    )
    &&& forall|j: int| 0 <= j < rest.len() ==> held(p.steps).contains(#[trigger] rest[j] as int)
    &&& forall|t: int| #[trigger]
        held(p.steps).contains(t) ==> (exists|i: int|
            0 <= i < p.grads.len() && (#[trigger] p.grads[i]).1 == t) || (exists|j: int|
            0 <= j < rest.len() && #[trigger] rest[j] == t)
    &&& forall|i: int, j: int|
        0 <= i < j < p.grads.len() ==> (#[trigger] p.grads[i]).1 != (#[trigger] p.grads[j]).1
    &&& forall|i: int, j: int| 0 <= i < j < rest.len() ==> #[trigger] rest[i] != #[trigger] rest[j]
    &&& forall|i: int, j: int|
        0 <= i < p.grads.len() && 0 <= j < rest.len() ==> (#[trigger] p.grads[i]).1
            != #[trigger] rest[j]
}

proof fn held_bound(steps: Seq<StepV>, t: int)
    requires
        held(steps).contains(t),
    ensures
        0 <= t < steps.len(),
    decreases steps.len(),
{
    if steps.len() > 0 && t != steps.len() - 1 {
        held_bound(steps.drop_last(), t);
    }
}

/// A step that makes a result.
proof fn made(p: PlanV, rest: Seq<usize>, s: StepV)
    requires
        linear(p, rest),
        uses_held(s, held(p.steps)),
        s is Ones || s is Call || s is Reshape,
        p.steps.len() <= usize::MAX,
    ensures
        linear(p.emit(s), rest.push(p.next())),
{
    let q = p.emit(s);
    let n = p.steps.len() as int;
    let r = rest.push(p.next());
    assert(q.steps.drop_last() =~= p.steps);
    assert(held(q.steps) == held(p.steps).insert(n));
    assert forall|i: int| 0 <= i < q.grads.len() implies (#[trigger] q.grads[i]).1 != n by {
        held_bound(p.steps, p.grads[i].1 as int);
    }
    assert forall|j: int| 0 <= j < rest.len() implies #[trigger] rest[j] != n by {
        held_bound(p.steps, rest[j] as int);
    }
    assert forall|j: int| 0 <= j < r.len() implies held(q.steps).contains(
        #[trigger] r[j] as int,
    ) by {
        if j < rest.len() {
            assert(held(p.steps).contains(rest[j] as int));
        }
    }
    assert forall|t: int| #[trigger] held(q.steps).contains(t) implies (exists|i: int|
        0 <= i < q.grads.len() && (#[trigger] q.grads[i]).1 == t) || (exists|j: int|
        0 <= j < r.len() && #[trigger] r[j] == t) by {
        if t == n {
            assert(r[rest.len() as int] == t);
        } else {
            assert(held(p.steps).contains(t));
            if exists|j: int| 0 <= j < rest.len() && #[trigger] rest[j] == t {
                let j = choose|j: int| 0 <= j < rest.len() && #[trigger] rest[j] == t;
                assert(r[j] == t);
            } else {
                let i = choose|i: int| 0 <= i < p.grads.len() && (#[trigger] p.grads[i]).1 == t;
                assert(q.grads[i].1 == t);
            }
        }
    }
    assert forall|i: int, j: int| 0 <= i < j < r.len() implies #[trigger] r[i]
        != #[trigger] r[j] by {
        assert(r[i] == rest[i]);
        if j < rest.len() {
            assert(rest[i] != rest[j]);
        }
    }
    assert forall|i: int, j: int| 0 <= i < q.grads.len() && 0 <= j < r.len() implies (
    #[trigger] q.grads[i]).1 != #[trigger] r[j] by {
        if j < rest.len() {
            assert(p.grads[i].1 != rest[j]);
        }
    }
}

/// A step that gives up the last of the rest.
proof fn given_up(p: PlanV, rest: Seq<usize>, s: StepV)
    requires
        linear(p, rest),
        rest.len() > 0,
        s == StepV::Release(Value::Temp(rest.last())) || (s is Store && s->value == rest.last()),
    ensures
        linear(p.emit(s), rest.drop_last()),
{
    let q = p.emit(s);
    let r = rest.drop_last();
    let t = rest.last() as int;
    assert(q.steps.drop_last() =~= p.steps);
    assert(rest[rest.len() - 1] == rest.last());
    assert(held(p.steps).contains(rest[rest.len() - 1] as int));
    assert(held(q.steps) == held(p.steps).remove(t));
    assert forall|i: int| 0 <= i < q.grads.len() implies held(q.steps).contains(
        (#[trigger] q.grads[i]).1 as int,
    ) by {
        assert(p.grads[i].1 != rest[rest.len() - 1]);
    }
    assert forall|j: int| 0 <= j < r.len() implies held(q.steps).contains(
        #[trigger] r[j] as int,
    ) by {
        assert(r[j] == rest[j]);
        assert(rest[j] != rest[rest.len() - 1]);
    }
    assert forall|x: int| #[trigger] held(q.steps).contains(x) implies (exists|i: int|
        0 <= i < q.grads.len() && (#[trigger] q.grads[i]).1 == x) || (exists|j: int|
        0 <= j < r.len() && #[trigger] r[j] == x) by {
        assert(held(p.steps).contains(x));
        if exists|j: int| 0 <= j < rest.len() && #[trigger] rest[j] == x {
            let j = choose|j: int| 0 <= j < rest.len() && #[trigger] rest[j] == x;
            assert(r[j] == x);
        } else {
            let i = choose|i: int| 0 <= i < p.grads.len() && (#[trigger] p.grads[i]).1 == x;
            assert(q.grads[i].1 == x);
        }
    }
    assert forall|i: int, j: int| 0 <= i < j < r.len() implies #[trigger] r[i]
        != #[trigger] r[j] by {
        assert(rest[i] != rest[j]);
    }
    assert forall|i: int, j: int| 0 <= i < q.grads.len() && 0 <= j < r.len() implies (
    #[trigger] q.grads[i]).1 != #[trigger] r[j] by {
        assert(p.grads[i].1 != rest[j]);
    }
}

/// A step that makes no result and gives none up.
proof fn neutral(p: PlanV, rest: Seq<usize>, v: Value)
    requires
        linear(p, rest),
        !(v is Temp),
    ensures
        linear(p.emit(StepV::Release(v)), rest),
{
    let q = p.emit(StepV::Release(v));
    assert(q.steps.drop_last() =~= p.steps);
    assert(held(q.steps) == held(p.steps));
    assert(sound(q.steps));
    assert(q.grads == p.grads);
    assert forall|i: int| 0 <= i < q.grads.len() implies held(q.steps).contains(
        (#[trigger] q.grads[i]).1 as int,
    ) by {
        assert(held(p.steps).contains(p.grads[i].1 as int));
    }
    assert forall|t: int| #[trigger] held(q.steps).contains(t) implies (exists|i: int|
        0 <= i < q.grads.len() && (#[trigger] q.grads[i]).1 == t) || (exists|j: int|
        0 <= j < rest.len() && #[trigger] rest[j] == t) by {
        assert(held(p.steps).contains(t));
    }
}

/// Moving a gradient of the plan to the rest.
proof fn taken(p: PlanV, rest: Seq<usize>, k: int)
    requires
        linear(p, rest),
        0 <= k < p.grads.len(),
    ensures
        linear((PlanV { grads: p.grads.remove(k), ..p }), rest.push(p.grads[k].1)),
{
    let q = PlanV { grads: p.grads.remove(k), ..p };
    let v = p.grads[k].1;
    let r = rest.push(v);
    assert forall|i: int| 0 <= i < q.grads.len() implies held(q.steps).contains(
        (#[trigger] q.grads[i]).1 as int,
    ) && q.grads[i].1 != v by {
        if i < k {
            assert(q.grads[i] == p.grads[i]);
            assert(p.grads[i].1 != p.grads[k].1);
        } else {
            assert(q.grads[i] == p.grads[i + 1]);
            assert(p.grads[k].1 != p.grads[i + 1].1);
        }
    }
    assert forall|j: int| 0 <= j < r.len() implies held(q.steps).contains(
        #[trigger] r[j] as int,
    ) by {
        if j < rest.len() {
            assert(held(p.steps).contains(rest[j] as int));
        }
    }
    assert forall|t: int| #[trigger] held(q.steps).contains(t) implies (exists|i: int|
        0 <= i < q.grads.len() && (#[trigger] q.grads[i]).1 == t) || (exists|j: int|
        0 <= j < r.len() && #[trigger] r[j] == t) by {
        assert(held(p.steps).contains(t));
        if exists|j: int| 0 <= j < rest.len() && #[trigger] rest[j] == t {
            let j = choose|j: int| 0 <= j < rest.len() && #[trigger] rest[j] == t;
            assert(r[j] == t);
        } else {
            let i = choose|i: int| 0 <= i < p.grads.len() && (#[trigger] p.grads[i]).1 == t;
            if i == k {
                assert(r[rest.len() as int] == t);
            } else if i < k {
                assert(q.grads[i].1 == t);
            } else {
                assert(q.grads[i - 1].1 == t);
            }
        }
    }
    assert forall|i: int, j: int| 0 <= i < j < q.grads.len() implies (#[trigger] q.grads[i]).1 != (
    #[trigger] q.grads[j]).1 by {
        let i2 = if i < k {
            i
        } else {
            i + 1
        };
        let j2 = if j < k {
            j
        } else {
            j + 1
        };
        assert(p.grads[i2].1 != p.grads[j2].1);
    }
    assert forall|i: int, j: int| 0 <= i < j < r.len() implies #[trigger] r[i]
        != #[trigger] r[j] by {
        if j < rest.len() {
            assert(rest[i] != rest[j]);
        } else {
            assert(p.grads[k].1 != rest[i]);
        }
    }
    assert forall|i: int, j: int| 0 <= i < q.grads.len() && 0 <= j < r.len() implies (
    #[trigger] q.grads[i]).1 != #[trigger] r[j] by {
        if j < rest.len() {
            let i2 = if i < k {
                i
            } else {
                i + 1
            };
            assert(q.grads[i] == p.grads[i2]);
            assert(p.grads[i2].1 != rest[j]);
        }
    }
}

/// Moving the last of the rest to the gradients of the plan.
proof fn kept(p: PlanV, rest: Seq<usize>, h: u64)
    requires
        linear(p, rest),
        rest.len() > 0,
    ensures
        linear((PlanV { grads: p.grads.push((h, rest.last())), ..p }), rest.drop_last()),
{
    let q = PlanV { grads: p.grads.push((h, rest.last())), ..p };
    let r = rest.drop_last();
    let l = rest.len() - 1;
    assert(held(p.steps).contains(rest[l] as int));
    assert forall|i: int| 0 <= i < q.grads.len() implies held(q.steps).contains(
        (#[trigger] q.grads[i]).1 as int,
    ) by {
        if i < p.grads.len() {
            assert(held(p.steps).contains(p.grads[i].1 as int));
        }
    }
    assert forall|j: int| 0 <= j < r.len() implies held(q.steps).contains(
        #[trigger] r[j] as int,
    ) by {
        assert(held(p.steps).contains(rest[j] as int));
    }
    assert forall|t: int| #[trigger] held(q.steps).contains(t) implies (exists|i: int|
        0 <= i < q.grads.len() && (#[trigger] q.grads[i]).1 == t) || (exists|j: int|
        0 <= j < r.len() && #[trigger] r[j] == t) by {
        assert(held(p.steps).contains(t));
        if exists|i: int| 0 <= i < p.grads.len() && (#[trigger] p.grads[i]).1 == t {
            let i = choose|i: int| 0 <= i < p.grads.len() && (#[trigger] p.grads[i]).1 == t;
            assert(q.grads[i].1 == t);
        } else {
            let j = choose|j: int| 0 <= j < rest.len() && #[trigger] rest[j] == t;
            if j == l {
                assert(q.grads[p.grads.len() as int].1 == t);
            } else {
                assert(r[j] == t);
            }
        }
    }
    assert forall|i: int, j: int| 0 <= i < j < q.grads.len() implies (#[trigger] q.grads[i]).1 != (
    #[trigger] q.grads[j]).1 by {
        if j < p.grads.len() {
            assert(p.grads[i].1 != p.grads[j].1);
        } else {
            assert(p.grads[i].1 != rest[l]);
        }
    }
    assert forall|i: int, j: int| 0 <= i < j < r.len() implies #[trigger] r[i]
        != #[trigger] r[j] by {
        assert(rest[i] != rest[j]);
    }
    assert forall|i: int, j: int| 0 <= i < q.grads.len() && 0 <= j < r.len() implies (
    #[trigger] q.grads[i]).1 != #[trigger] r[j] by {
        assert(r[j] == rest[j]);
        if i < p.grads.len() {
            assert(p.grads[i].1 != rest[j]);
        } else {
            assert(rest[j] != rest[l]);
        }
    }
}

/// The order of the rest does not matter: its last two can change places.
proof fn swapped(p: PlanV, rest: Seq<usize>, a: usize, b: usize)
    requires
        linear(p, rest.push(a).push(b)),
    ensures
        linear(p, rest.push(b).push(a)),
{
    let r = rest.push(a).push(b);
    let s = rest.push(b).push(a);
    let n = rest.len() as int;
    assert(r[n] == a && r[n + 1] == b && s[n] == b && s[n + 1] == a);
    assert forall|j: int| 0 <= j < s.len() implies held(p.steps).contains(
        #[trigger] s[j] as int,
    ) by {
        if j < n {
            assert(s[j] == r[j]);
        } else if j == n {
            assert(held(p.steps).contains(r[n + 1] as int));
        } else {
            assert(held(p.steps).contains(r[n] as int));
        }
    }
    assert forall|t: int| #[trigger] held(p.steps).contains(t) implies (exists|i: int|
        0 <= i < p.grads.len() && (#[trigger] p.grads[i]).1 == t) || (exists|j: int|
        0 <= j < s.len() && #[trigger] s[j] == t) by {
        if exists|j: int| 0 <= j < r.len() && #[trigger] r[j] == t {
            let j = choose|j: int| 0 <= j < r.len() && #[trigger] r[j] == t;
            if j < n {
                assert(s[j] == t);
            } else if j == n {
                assert(s[n + 1] == t);
            } else {
                assert(s[n] == t);
            }
        }
    }
    assert forall|i: int, j: int| 0 <= i < j < s.len() implies #[trigger] s[i]
        != #[trigger] s[j] by {
        let i2 = if i == n {
            n + 1
        } else {
            i
        };
        let j2 = if j == n {
            n + 1
        } else if j == n + 1 {
            n
        } else {
            j
        };
        assert(s[i] == r[i2] && s[j] == r[j2]);
        if i2 < j2 {
            assert(r[i2] != r[j2]);
        } else {
            assert(r[j2] != r[i2]);
        }
    }
    assert forall|i: int, j: int| 0 <= i < p.grads.len() && 0 <= j < s.len() implies (
    #[trigger] p.grads[i]).1 != #[trigger] s[j] by {
        let j2 = if j == n {
            n + 1
        } else if j == n + 1 {
            n
        } else {
            j
        };
        assert(s[j] == r[j2]);
        assert(p.grads[i].1 != r[j2]);
    }
}

/// Adding a gradient keeps count.
proof fn accumulated(p: PlanV, rest: Seq<usize>, h: u64, t: usize)
    requires
        linear(p, rest.push(t)),
        p.accumulate(h, t).steps.len() <= usize::MAX,
    ensures
        linear(p.accumulate(h, t), rest),
{
    backward::grad_at_bounds(p.grads, h, 0);
    match backward::grad_at(p.grads, h, 0) {
        None => {
            kept(p, rest.push(t), h);
            assert(rest.push(t).drop_last() =~= rest);
            assert(rest.push(t).last() == t);
        },
        Some(k) => {
            let prev = p.grads[k].1;
            let sum = p.next();
            taken(p, rest.push(t), k);
            let q = PlanV { grads: p.grads.remove(k), ..p };
            let r = rest.push(t).push(prev);
            let call = StepV::Call {
                slot: BwdSlot::GradAcc,
                args: seq![Value::Temp(prev), Value::Temp(t)],
            };
            assert(r[rest.len() as int] == t);
            assert(r[rest.len() as int + 1] == prev);
            assert(held(q.steps).contains(r[rest.len() as int] as int));
            assert(held(q.steps).contains(r[rest.len() as int + 1] as int));
            made(q, r, call);
            let q1 = q.emit(call);
            swapped(q1, rest.push(t), prev, sum);
            let r1 = rest.push(t).push(sum).push(prev);
            given_up(q1, r1, StepV::Release(Value::Temp(prev)));
            assert(r1.drop_last() =~= rest.push(t).push(sum));
            let q2 = q1.emit(StepV::Release(Value::Temp(prev)));
            swapped(q2, rest, t, sum);
            let r2 = rest.push(sum).push(t);
            given_up(q2, r2, StepV::Release(Value::Temp(t)));
            assert(r2.drop_last() =~= rest.push(sum));
            let q3 = q2.emit(StepV::Release(Value::Temp(t)));
            kept(q3, rest.push(sum), h);
            assert(rest.push(sum).drop_last() =~= rest);
            assert(rest.push(sum).last() == sum);
            assert(p.accumulate(h, t) =~= (PlanV { grads: q3.grads.push((h, sum)), ..q3 }));
        },
    }
}

pub proof fn accumulate_grows(p: PlanV, h: u64, t: usize)
    ensures
        p.steps.len() <= p.accumulate(h, t).steps.len(),
{
}

/// The calls of a node use only its gradient.
proof fn calls_use(n: NodeV, dout: usize, h: Set<int>, i: int)
    requires
        h.contains(dout as int),
        0 <= i < n.calls(dout).len(),
    ensures
        uses_held(
            StepV::Call { slot: n.calls(dout)[i].1, args: n.calls(dout)[i].2 },
            h,
        ),
{
    let args = n.calls(dout)[i].2;
    assert forall|j: int| 0 <= j < args.len() implies match #[trigger] args[j] {
        Value::Temp(t) => h.contains(t as int),
        _ => true,
    } by {}
}

pub proof fn visit_grows(p: PlanV, mem: MemV, n: NodeV, dout: usize)
    requires
        p.visit(mem, n, dout) is Ok,
    ensures
        p.steps.len() <= p.visit(mem, n, dout)->Ok_0.steps.len(),
{
}

/// Visiting a node keeps count.
proof fn visited(p: PlanV, mem: MemV, n: NodeV, k: int)
    requires
        linear(p, Seq::empty()),
        0 <= k < p.grads.len(),
        p.visit(mem, n, p.grads[k].1) is Ok,
        p.visit(mem, n, p.grads[k].1)->Ok_0.steps.len() <= usize::MAX,
    ensures
        linear(p.visit(mem, n, p.grads[k].1)->Ok_0, Seq::empty()),
{
    let dout = p.grads[k].1;
    let none = Seq::<usize>::empty();
    let q = p.visit(mem, n, dout)->Ok_0;
    assert(held(p.steps).contains(p.grads[k].1 as int));
    let t0 = p.next();
    if n.op == OpTag::Reshape {
        let s = StepV::Reshape { of: dout, like: n.saved[0] };
        accumulate_grows(p.emit(s), n.saved[0], t0);
        made(p, none, s);
        accumulated(p.emit(s), none, n.saved[0], t0);
    } else if n.op == OpTag::Transpose {
        let x = n.saved[0];
        let perm = crate::runtime::permute::perm_of(n.dims, mem.tensors[x].shape.len())->Ok_0;
        let args = backward::reorder_args(dout, crate::runtime::permute::inverse(perm));
        let s = StepV::Call { slot: BwdSlot::PermuteNdFwd, args };
        assert(uses_held(s, held(p.steps))) by {
            assert forall|j: int| 0 <= j < args.len() implies match #[trigger] args[j] {
                Value::Temp(t) => held(p.steps).contains(t as int),
                _ => true,
            } by {}
        }
        accumulate_grows(p.emit(s), x, t0);
        made(p, none, s);
        accumulated(p.emit(s), none, x, t0);
    } else {
        let calls = n.calls(dout);
        let s0 = StepV::Call { slot: calls[0].1, args: calls[0].2 };
        calls_use(n, dout, held(p.steps), 0);
        let p0 = p.emit(s0);
        if calls.len() == 2 {
            let s1 = StepV::Call { slot: calls[1].1, args: calls[1].2 };
            let t1 = p0.next();
            let p1 = p0.emit(s1);
            accumulate_grows(p1, calls[0].0, t0);
            let p2 = p1.accumulate(calls[0].0, t0);
            accumulate_grows(p2, calls[1].0, t1);
            made(p, none, s0);
            assert(p0.steps.drop_last() =~= p.steps);
            calls_use(n, dout, held(p0.steps), 1);
            made(p0, none.push(t0), s1);
            swapped(p1, none, t0, t1);
            accumulated(p1, none.push(t1), calls[0].0, t0);
            accumulated(p2, none, calls[1].0, t1);
        } else {
            accumulate_grows(p0, calls[0].0, t0);
            made(p, none, s0);
            accumulated(p0, none, calls[0].0, t0);
        }
    }
}

pub proof fn walk_grows(p: PlanV, mem: MemV, nodes: Seq<NodeV>, n: nat)
    requires
        p.walk(mem, nodes, n) is Ok,
    ensures
        p.steps.len() <= p.walk(mem, nodes, n)->Ok_0.steps.len(),
    decreases n,
{
    if n > 0 {
        let node = nodes[n - 1];
        match backward::grad_at(p.grads, node.output, 0) {
            None => walk_grows(p, mem, nodes, (n - 1) as nat),
            Some(k) => {
                let q = p.visit(mem, node, p.grads[k].1);
                visit_grows(p, mem, node, p.grads[k].1);
                walk_grows(q->Ok_0, mem, nodes, (n - 1) as nat);
            },
        }
    }
}

proof fn walked(p: PlanV, mem: MemV, nodes: Seq<NodeV>, n: nat)
    requires
        linear(p, Seq::empty()),
        p.walk(mem, nodes, n) is Ok,
        p.walk(mem, nodes, n)->Ok_0.steps.len() <= usize::MAX,
    ensures
        linear(p.walk(mem, nodes, n)->Ok_0, Seq::empty()),
    decreases n,
{
    if n > 0 {
        let node = nodes[n - 1];
        backward::grad_at_bounds(p.grads, node.output, 0);
        match backward::grad_at(p.grads, node.output, 0) {
            None => walked(p, mem, nodes, (n - 1) as nat),
            Some(k) => {
                let q = p.visit(mem, node, p.grads[k].1)->Ok_0;
                walk_grows(q, mem, nodes, (n - 1) as nat);
                visited(p, mem, node, k);
                walked(q, mem, nodes, (n - 1) as nat);
            },
        }
    }
}

/// The results among the values that are to be released.
spec fn temps(vs: Seq<Value>, n: nat) -> Seq<usize>
    decreases n,
{
    if n == 0 {
        Seq::empty()
    } else {
        match vs[n - 1] {
            Value::Temp(t) => temps(vs, (n - 1) as nat).push(t),
            _ => temps(vs, (n - 1) as nat),
        }
    }
}

pub proof fn fold_grows(
    p: PlanV,
    leaves: Seq<u64>,
    kept_grads: Seq<(u64, u64)>,
    i: nat,
    vs: Seq<Value>,
)
    ensures
        p.steps.len() <= p.fold_leaves(leaves, kept_grads, i, vs).0.steps.len(),
    decreases leaves.len() - i,
{
    if i < leaves.len() {
        let leaf = leaves[i as int];
        match backward::grad_at(p.grads, leaf, 0) {
            None => fold_grows(p, leaves, kept_grads, i + 1, vs),
            Some(k) => {
                let new = p.grads[k].1;
                let s = PlanV { grads: p.grads.remove(k), ..p };
                match memory::value_of(kept_grads, leaf) {
                    None => fold_grows(
                        s.emit(StepV::Store { leaf, value: new }),
                        leaves,
                        kept_grads,
                        i + 1,
                        vs,
                    ),
                    Some(prev) => {
                        let sum = s.next();
                        fold_grows(
                            s.emit(
                                StepV::Call {
                                    slot: BwdSlot::GradAcc,
                                    args: seq![Value::Tensor(prev), Value::Temp(new)],
                                },
                            ).emit(StepV::Store { leaf, value: sum }),
                            leaves,
                            kept_grads,
                            i + 1,
                            vs.push(Value::Tensor(prev)).push(Value::Temp(new)),
                        )
                    },
                }
            },
        }
    }
}

proof fn temps_prefix(vs: Seq<Value>, x: Value, n: nat)
    requires
        n <= vs.len(),
    ensures
        temps(vs.push(x), n) == temps(vs, n),
    decreases n,
{
    if n > 0 {
        temps_prefix(vs, x, (n - 1) as nat);
    }
}

proof fn folded(p: PlanV, leaves: Seq<u64>, kept_grads: Seq<(u64, u64)>, i: nat, vs: Seq<Value>)
    requires
        linear(p, temps(vs, vs.len())),
        p.fold_leaves(leaves, kept_grads, i, vs).0.steps.len() <= usize::MAX,
    ensures
        ({
            let (q, ws) = p.fold_leaves(leaves, kept_grads, i, vs);
            linear(q, temps(ws, ws.len()))
        }),
    decreases leaves.len() - i,
{
    if i < leaves.len() {
        let leaf = leaves[i as int];
        let rest = temps(vs, vs.len());
        backward::grad_at_bounds(p.grads, leaf, 0);
        match backward::grad_at(p.grads, leaf, 0) {
            None => folded(p, leaves, kept_grads, i + 1, vs),
            Some(k) => {
                let new = p.grads[k].1;
                let s = PlanV { grads: p.grads.remove(k), ..p };
                taken(p, rest, k);
                match memory::value_of(kept_grads, leaf) {
                    None => {
                        let st = StepV::Store { leaf, value: new };
                        given_up(s, rest.push(new), st);
                        assert(rest.push(new).drop_last() =~= rest);
                        folded(s.emit(st), leaves, kept_grads, i + 1, vs);
                    },
                    Some(prev) => {
                        let sum = s.next();
                        let call = StepV::Call {
                            slot: BwdSlot::GradAcc,
                            args: seq![Value::Tensor(prev), Value::Temp(new)],
                        };
                        let st = StepV::Store { leaf, value: sum };
                        let ws = vs.push(Value::Tensor(prev)).push(Value::Temp(new));
                        let r = rest.push(new);
                        fold_grows(s.emit(call).emit(st), leaves, kept_grads, i + 1, ws);
                        assert(r[rest.len() as int] == new);
                        assert(held(s.steps).contains(r[rest.len() as int] as int));
                        made(s, r, call);
                        given_up(s.emit(call), r.push(sum), st);
                        assert(r.push(sum).drop_last() =~= r);
                        temps_prefix(vs, Value::Tensor(prev), vs.len());
                        temps_prefix(
                            vs.push(Value::Tensor(prev)),
                            Value::Temp(new),
                            vs.len() + 1,
                        );
                        assert(temps(ws, ws.len()) == r);
                        folded(s.emit(call).emit(st), leaves, kept_grads, i + 1, ws);
                    },
                }
            },
        }
    }
}

/// A permutation-free view of the rest: what is left of it after the first
/// `i` values.
spec fn later_temps(vs: Seq<Value>, i: nat) -> Seq<usize>
    decreases vs.len() - i,
{
    if i >= vs.len() {
        Seq::empty()
    } else {
        match vs[i as int] {
            Value::Temp(t) => later_temps(vs, i + 1).push(t),
            _ => later_temps(vs, i + 1),
        }
    }
}

/// Only which results the rest holds matters, not their order.
proof fn reordered(p: PlanV, r: Seq<usize>, s: Seq<usize>)
    requires
        linear(p, r),
        s =~= r.reverse(),
    ensures
        linear(p, s),
{
    let n = r.len();
    assert forall|j: int| 0 <= j < s.len() implies held(p.steps).contains(
        #[trigger] s[j] as int,
    ) by {
        assert(s[j] == r[n - 1 - j]);
    }
    assert forall|t: int| #[trigger] held(p.steps).contains(t) implies (exists|i: int|
        0 <= i < p.grads.len() && (#[trigger] p.grads[i]).1 == t) || (exists|j: int|
        0 <= j < s.len() && #[trigger] s[j] == t) by {
        if exists|j: int| 0 <= j < r.len() && #[trigger] r[j] == t {
            let j = choose|j: int| 0 <= j < r.len() && #[trigger] r[j] == t;
            assert(s[n - 1 - j] == t);
        }
    }
    assert forall|i: int, j: int| 0 <= i < j < s.len() implies #[trigger] s[i]
        != #[trigger] s[j] by {
        assert(r[n - 1 - j] != r[n - 1 - i]);
    }
    assert forall|i: int, j: int| 0 <= i < p.grads.len() && 0 <= j < s.len() implies (
    #[trigger] p.grads[i]).1 != #[trigger] s[j] by {
        assert(p.grads[i].1 != r[n - 1 - j]);
    }
}

proof fn temps_reverse(vs: Seq<Value>, n: nat)
    requires
        n <= vs.len(),
    ensures
        later_temps(vs, 0) =~= later_temps(vs, n) + temps(vs, n).reverse(),
    decreases n,
{
    if n > 0 {
        temps_reverse(vs, (n - 1) as nat);
        match vs[n - 1] {
            Value::Temp(t) => {
                let a = temps(vs, (n - 1) as nat);
                assert(a.push(t).reverse() =~= seq![t] + a.reverse());
                assert(later_temps(vs, n).push(t) + a.reverse() =~= later_temps(vs, n) + (seq![t]
                    + a.reverse()));
            },
            _ => {},
        }
    }
}

proof fn values_released(p: PlanV, vs: Seq<Value>, i: nat)
    requires
        linear(p, later_temps(vs, i)),
    ensures
        linear(p.release_values(vs, i), Seq::empty()),
        p.release_values(vs, i).grads == p.grads,
    decreases vs.len() - i,
{
    if i < vs.len() {
        let s = StepV::Release(vs[i as int]);
        match vs[i as int] {
            Value::Temp(t) => {
                let r = later_temps(vs, i + 1).push(t);
                given_up(p, r, s);
                assert(r.drop_last() =~= later_temps(vs, i + 1));
            },
            _ => {
                neutral(p, later_temps(vs, i), vs[i as int]);
            },
        }
        values_released(p.emit(s), vs, i + 1);
    }
}

/// What is left of the gradients after the first `i` are released.
spec fn left(p: PlanV, i: nat) -> PlanV {
    PlanV { grads: p.grads.skip(i as int), ..p }
}

proof fn grads_released(p: PlanV, i: nat)
    requires
        i <= p.grads.len(),
        linear(left(p, i), Seq::empty()),
    ensures
        sound(p.release_grads(i).steps),
        held(p.release_grads(i).steps) =~= Set::<int>::empty(),
    decreases p.grads.len() - i,
{
    let l = left(p, i);
    if i < p.grads.len() {
        let t = p.grads[i as int].1;
        let s = StepV::Release(Value::Temp(t));
        let none = Seq::<usize>::empty();
        assert(l.grads[0] == p.grads[i as int]);
        taken(l, none, 0);
        let q = PlanV { grads: l.grads.remove(0), ..l };
        assert(none.push(t).last() == t);
        given_up(q, none.push(t), s);
        assert(none.push(t).drop_last() =~= none);
        assert(q.emit(s) =~= left(p.emit(s), i + 1));
        grads_released(p.emit(s), i + 1);
    } else {
        assert(l.grads.len() == 0);
        assert forall|t: int| !held(p.steps).contains(t) by {}
    }
}

pub proof fn releases_grow(p: PlanV, vs: Seq<Value>, i: nat)
    ensures
        p.steps.len() <= p.release_values(vs, i).steps.len(),
    decreases vs.len() - i,
{
    if i < vs.len() {
        releases_grow(p.emit(StepV::Release(vs[i as int])), vs, i + 1);
    }
}

pub proof fn grad_releases_grow(p: PlanV, i: nat)
    ensures
        p.steps.len() <= p.release_grads(i).steps.len(),
    decreases p.grads.len() - i,
{
    if i < p.grads.len() {
        grad_releases_grow(p.emit(StepV::Release(Value::Temp(p.grads[i as int].1))), i + 1);
    }
}

/// A backward pass uses every intermediate gradient only while it exists, and
/// gives each up exactly once: by a release, or to the registry of leaves.
pub proof fn backward_is_balanced(mem: MemV, nodes: Seq<NodeV>, loss: u64)
    requires
        backward::backward_plan(mem, nodes, loss) is Ok,
        backward::backward_plan(mem, nodes, loss)->Ok_0.len() <= usize::MAX,
    ensures
        sound(backward::backward_plan(mem, nodes, loss)->Ok_0),
        held(backward::backward_plan(mem, nodes, loss)->Ok_0) == Set::<int>::empty(),
{
    let p0 = backward::seeded(loss);
    let s = p0.walk(mem, nodes, nodes.len())->Ok_0;
    let (q, vs) = s.fold_leaves(mem.leaves, mem.leaf_grad, 0, Seq::empty());
    let r = q.release_values(vs, 0);
    grad_releases_grow(r, 0);
    releases_grow(q, vs, 0);
    fold_grows(s, mem.leaves, mem.leaf_grad, 0, Seq::empty());
    assert(linear(p0, Seq::empty())) by {
        let first = StepV::Ones { like: loss };
        assert(p0.steps.drop_last() =~= Seq::<StepV>::empty());
        assert(p0.steps.last() == first);
        assert(held(p0.steps.drop_last()) == Set::<int>::empty());
        assert(held(p0.steps) == Set::<int>::empty().insert(0));
        assert(sound(p0.steps.drop_last()));
        assert forall|t: int| #[trigger] held(p0.steps).contains(t) implies exists|i: int|
            0 <= i < p0.grads.len() && (#[trigger] p0.grads[i]).1 == t by {
            assert(p0.grads[0].1 == t);
        }
    }
    walked(p0, mem, nodes, nodes.len());
    assert(temps(Seq::empty(), 0) == Seq::<usize>::empty());
    folded(s, mem.leaves, mem.leaf_grad, 0, Seq::empty());
    temps_reverse(vs, vs.len());
    assert(later_temps(vs, vs.len()) =~= Seq::<usize>::empty());
    assert(later_temps(vs, 0) =~= temps(vs, vs.len()).reverse());
    reordered(q, temps(vs, vs.len()), later_temps(vs, 0));
    values_released(q, vs, 0);
    assert(left(r, 0) =~= r);
    grads_released(r, 0);
}

} // verus!
