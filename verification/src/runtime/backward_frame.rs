//! Which gradients a backward pass stores: those of the leaves that feed the
//! loss, and no others.

use crate::runtime::backward;
use crate::runtime::backward::{PlanV, StepV, Value};
use crate::runtime::memory;
use crate::runtime::memory::MemV;
use crate::runtime::tags::{BwdSlot, OpTag};
use crate::runtime::tape::NodeV;
use vstd::prelude::*;

verus! {

impl NodeV {
    /// The operands of a recorded operation that gradients flow to.
    pub open spec fn inputs(self) -> Set<u64> {
        match self.op {
            OpTag::Matmul | OpTag::Add | OpTag::Sub | OpTag::Mul | OpTag::Div => set![
                self.saved[0],
                self.saved[1],
            ],
            _ => set![self.saved[0]],
        }
    }
}

/// Whether a tensor is the loss or feeds it through at most `depth` recorded
/// operations.
pub open spec fn feeds(nodes: Seq<NodeV>, loss: u64, h: u64, depth: nat) -> bool
    decreases depth,
{
    h == loss || (depth > 0 && exists|i: int|
        0 <= i < nodes.len() && (#[trigger] nodes[i]).inputs().contains(h) && feeds(
            nodes,
            loss,
            nodes[i].output,
            (depth - 1) as nat,
        ))
}

/// The tensors that gradients reach from those of a set through the first `n`
/// recorded operations, the last of them first.
pub open spec fn reached(nodes: Seq<NodeV>, n: nat, from: Set<u64>) -> Set<u64>
    decreases n,
{
    if n == 0 {
        from
    } else {
        let node = nodes[n - 1];
        reached(
            nodes,
            (n - 1) as nat,
            if from.contains(node.output) {
                from.union(node.inputs())
            } else {
                from
            },
        )
    }
}

/// Whether the gradients of a plan are those of a set of tensors.
spec fn has_grads(p: PlanV, s: Set<u64>) -> bool {
    forall|h: u64| #[trigger] s.contains(h) <==> backward::grad_at(p.grads, h, 0) is Some
}

/// Whether steps keep nothing in the registry and release no tensor of it.
spec fn keeps_registry(steps: Seq<StepV>) -> bool {
    forall|k: int|
        0 <= k < steps.len() ==> !(#[trigger] steps[k] is Store) && !(steps[k] matches StepV::Release(
            Value::Tensor(_),
        ))
}

proof fn grad_known(g: Seq<(u64, usize)>, h: u64)
    ensures
        backward::grad_at(g, h, 0) is Some <==> exists|j: int|
            0 <= j < g.len() && (#[trigger] g[j]).0 == h,
{
    backward::grad_at_bounds(g, h, 0);
}

proof fn removed_grads(g: Seq<(u64, usize)>, at: int, h: u64)
    requires
        0 <= at < g.len(),
        g[at].0 != h,
    ensures
        backward::grad_at(g.remove(at), h, 0) is Some <==> backward::grad_at(g, h, 0) is Some,
{
    grad_known(g, h);
    grad_known(g.remove(at), h);
    if backward::grad_at(g, h, 0) is Some {
        let j = choose|j: int| 0 <= j < g.len() && (#[trigger] g[j]).0 == h;
        let k = if j < at {
            j
        } else {
            j - 1
        };
        assert(g.remove(at)[k].0 == h);
    }
    if backward::grad_at(g.remove(at), h, 0) is Some {
        let j = choose|j: int| 0 <= j < g.remove(at).len() && (#[trigger] g.remove(at)[j]).0 == h;
        let k = if j < at {
            j
        } else {
            j + 1
        };
        assert(g[k].0 == h);
    }
}

proof fn pushed_grads(g: Seq<(u64, usize)>, e: (u64, usize), h: u64)
    ensures
        backward::grad_at(g.push(e), h, 0) is Some <==> e.0 == h || backward::grad_at(g, h, 0)
            is Some,
{
    grad_known(g, h);
    grad_known(g.push(e), h);
    let n = g.len() as int;
    assert(g.push(e)[n] == e);
    if backward::grad_at(g, h, 0) is Some {
        let j = choose|j: int| 0 <= j < g.len() && (#[trigger] g[j]).0 == h;
        assert(g.push(e)[j].0 == h);
    }
    if backward::grad_at(g.push(e), h, 0) is Some && e.0 != h {
        let j = choose|j: int| 0 <= j < g.push(e).len() && (#[trigger] g.push(e)[j]).0 == h;
        assert(g[j].0 == h);
    }
}

/// Adding a gradient adds its tensor.
proof fn accumulated(p: PlanV, s: Set<u64>, h: u64, t: usize)
    requires
        has_grads(p, s),
        keeps_registry(p.steps),
    ensures
        has_grads(p.accumulate(h, t), s.insert(h)),
        keeps_registry(p.accumulate(h, t).steps),
{
    let q = p.accumulate(h, t);
    backward::grad_at_bounds(p.grads, h, 0);
    assert forall|x: u64| #[trigger] s.insert(h).contains(x) <==> backward::grad_at(q.grads, x, 0)
        is Some by {
        assert(s.contains(x) <==> backward::grad_at(p.grads, x, 0) is Some);
        match backward::grad_at(p.grads, h, 0) {
            None => {
                pushed_grads(p.grads, (h, t), x);
            },
            Some(k) => {
                pushed_grads(p.grads.remove(k), (h, p.next()), x);
                if x != h {
                    removed_grads(p.grads, k, x);
                }
            },
        }
    }
}

proof fn emitted(p: PlanV, s: Set<u64>, st: StepV)
    requires
        has_grads(p, s),
        keeps_registry(p.steps),
        !(st is Store),
        !(st matches StepV::Release(Value::Tensor(_))),
    ensures
        has_grads(p.emit(st), s),
        keeps_registry(p.emit(st).steps),
{
}

/// Visiting a node adds its inputs.
proof fn visited(p: PlanV, s: Set<u64>, mem: MemV, node: NodeV, dout: usize)
    requires
        has_grads(p, s),
        keeps_registry(p.steps),
        p.visit(mem, node, dout) is Ok,
    ensures
        has_grads(p.visit(mem, node, dout)->Ok_0, s.union(node.inputs())),
        keeps_registry(p.visit(mem, node, dout)->Ok_0.steps),
{
    let q = p.visit(mem, node, dout)->Ok_0;
    match node.op {
        OpTag::Transpose => {
            let x = node.saved[0];
            let rank = mem.tensors[x].shape.len();
            let perm = crate::runtime::permute::perm_of(node.dims, rank)->Ok_0;
            let st = StepV::Call {
                slot: BwdSlot::PermuteNdFwd,
                args: backward::reorder_args(dout, crate::runtime::permute::inverse(perm)),
            };
            emitted(p, s, st);
            accumulated(p.emit(st), s, x, p.next());
            assert(s.insert(x) =~= s.union(node.inputs()));
        },
        OpTag::Reshape => {
            let x = node.saved[0];
            let st = StepV::Reshape { of: dout, like: x };
            emitted(p, s, st);
            accumulated(p.emit(st), s, x, p.next());
            assert(s.insert(x) =~= s.union(node.inputs()));
        },
        _ => {
            let calls = node.calls(dout);
            let t0 = p.next();
            let c0 = StepV::Call { slot: calls[0].1, args: calls[0].2 };
            emitted(p, s, c0);
            let s0 = p.emit(c0);
            assert(calls[0].0 == node.saved[0]);
            if calls.len() == 2 {
                let t1 = s0.next();
                let c1 = StepV::Call { slot: calls[1].1, args: calls[1].2 };
                assert(calls[1].0 == node.saved[1]);
                emitted(s0, s, c1);
                accumulated(s0.emit(c1), s, calls[0].0, t0);
                accumulated(
                    s0.emit(c1).accumulate(calls[0].0, t0),
                    s.insert(calls[0].0),
                    calls[1].0,
                    t1,
                );
                assert(s.insert(calls[0].0).insert(calls[1].0) =~= s.union(node.inputs()));
            } else {
                accumulated(s0, s, calls[0].0, t0);
                assert(s.insert(calls[0].0) =~= s.union(node.inputs()));
            }
        },
    }
}

/// A walk gives gradients to the tensors that it reaches.
proof fn walked(p: PlanV, s: Set<u64>, mem: MemV, nodes: Seq<NodeV>, n: nat)
    requires
        has_grads(p, s),
        keeps_registry(p.steps),
        n <= nodes.len(),
        p.walk(mem, nodes, n) is Ok,
    ensures
        has_grads(p.walk(mem, nodes, n)->Ok_0, reached(nodes, n, s)),
        keeps_registry(p.walk(mem, nodes, n)->Ok_0.steps),
    decreases n,
{
    if n > 0 {
        let node = nodes[n - 1];
        assert(s.contains(node.output) <==> backward::grad_at(p.grads, node.output, 0) is Some);
        match backward::grad_at(p.grads, node.output, 0) {
            None => {
                walked(p, s, mem, nodes, (n - 1) as nat);
            },
            Some(k) => {
                let dout = p.grads[k].1;
                visited(p, s, mem, node, dout);
                walked(
                    p.visit(mem, node, dout)->Ok_0,
                    s.union(node.inputs()),
                    mem,
                    nodes,
                    (n - 1) as nat,
                );
            },
        }
    }
}

/// Whether a list of steps goes on as another does.
spec fn goes_on(a: Seq<StepV>, b: Seq<StepV>) -> bool {
    a.len() <= b.len() && forall|k: int| 0 <= k < a.len() ==> #[trigger] b[k] == a[k]
}

proof fn values_go_on(p: PlanV, vs: Seq<Value>, i: nat)
    ensures
        ({
            let q = p.release_values(vs, i);
            &&& goes_on(p.steps, q.steps)
            &&& forall|k: int|
                p.steps.len() <= k < q.steps.len() ==> !(#[trigger] q.steps[k] is Store)
            &&& forall|k: int|
                p.steps.len() <= k < q.steps.len() && #[trigger] q.steps[k] is Release
                    ==> exists|j: int| i <= j < vs.len() && #[trigger] vs[j] == q.steps[k]->Release_0
        }),
    decreases vs.len() - i,
{
    if i < vs.len() {
        let s = p.emit(StepV::Release(vs[i as int]));
        values_go_on(s, vs, i + 1);
        let q = p.release_values(vs, i);
        let n = p.steps.len() as int;
        assert(s.steps[n] == StepV::Release(vs[i as int]));
        assert(q.steps[n] == s.steps[n]);
        assert forall|k: int| p.steps.len() <= k < q.steps.len() implies !(
        #[trigger] q.steps[k] is Store) by {}
        assert forall|k: int| 0 <= k < p.steps.len() implies #[trigger] q.steps[k]
            == p.steps[k] by {
            assert(q.steps[k] == s.steps[k]);
        }
    }
}

proof fn grads_go_on(p: PlanV, i: nat)
    ensures
        ({
            let q = p.release_grads(i);
            &&& goes_on(p.steps, q.steps)
            &&& forall|k: int|
                p.steps.len() <= k < q.steps.len() ==> #[trigger] q.steps[k] matches StepV::Release(
                    Value::Temp(_),
                )
        }),
    decreases p.grads.len() - i,
{
    if i < p.grads.len() {
        let s = p.emit(StepV::Release(Value::Temp(p.grads[i as int].1)));
        grads_go_on(s, i + 1);
        let q = p.release_grads(i);
        let n = p.steps.len() as int;
        assert(q.steps[n] == s.steps[n]);
        assert forall|k: int| 0 <= k < p.steps.len() implies #[trigger] q.steps[k]
            == p.steps[k] by {
            assert(q.steps[k] == s.steps[k]);
        }
    }
}

/// Whether a value is the old gradient of a leaf that was reached, or a result.
spec fn old_grad(v: Value, leaves: Seq<u64>, kept: Seq<(u64, u64)>, s: Set<u64>) -> bool {
    v matches Value::Tensor(g) ==> exists|leaf: u64| #[trigger]
        leaves.contains(leaf) && s.contains(leaf) && memory::value_of(kept, leaf) == Some(g)
}

/// Whether steps store only gradients of leaves that were reached.
spec fn stores_reached(steps: Seq<StepV>, leaves: Seq<u64>, s: Set<u64>) -> bool {
    forall|k: int|
        0 <= k < steps.len() && #[trigger] steps[k] is Store ==> leaves.contains(
            steps[k]->Store_leaf,
        ) && s.contains(steps[k]->Store_leaf)
}

spec fn releases_no_tensor(steps: Seq<StepV>) -> bool {
    forall|k: int|
        0 <= k < steps.len() ==> !(#[trigger] steps[k] matches StepV::Release(Value::Tensor(_)))
}

/// Whether steps store a gradient of a leaf.
pub open spec fn stores(steps: Seq<StepV>, leaf: u64) -> bool {
    exists|k: int|
        0 <= k < steps.len() && #[trigger] steps[k] is Store && steps[k]->Store_leaf == leaf
}

proof fn stores_on(a: Seq<StepV>, b: Seq<StepV>, leaf: u64)
    requires
        goes_on(a, b),
        stores(a, leaf),
    ensures
        stores(b, leaf),
{
    let k = choose|k: int|
        0 <= k < a.len() && #[trigger] a[k] is Store && a[k]->Store_leaf == leaf;
    assert(b[k] == a[k]);
}

/// Folding stores the gradients of the leaves that have one.
proof fn folded(
    p: PlanV,
    s: Set<u64>,
    leaves: Seq<u64>,
    kept: Seq<(u64, u64)>,
    i: nat,
    vs: Seq<Value>,
)
    requires
        forall|h: u64| backward::grad_at(p.grads, h, 0) is Some ==> #[trigger] s.contains(h),
        stores_reached(p.steps, leaves, s),
        releases_no_tensor(p.steps),
        forall|j: int| 0 <= j < vs.len() ==> old_grad(#[trigger] vs[j], leaves, kept, s),
        i <= leaves.len(),
    ensures
        ({
            let (q, ws) = p.fold_leaves(leaves, kept, i, vs);
            &&& goes_on(p.steps, q.steps)
            &&& stores_reached(q.steps, leaves, s)
            &&& releases_no_tensor(q.steps)
            &&& forall|j: int| 0 <= j < ws.len() ==> old_grad(#[trigger] ws[j], leaves, kept, s)
            &&& forall|j: int|
                i <= j < leaves.len() && backward::grad_at(p.grads, #[trigger] leaves[j], 0) is Some
                    ==> stores(q.steps, leaves[j])
        }),
    decreases leaves.len() - i,
{
    if i < leaves.len() {
        let leaf = leaves[i as int];
        assert(leaves.contains(leaf));
        let (q, ws) = p.fold_leaves(leaves, kept, i, vs);
        backward::grad_at_bounds(p.grads, leaf, 0);
        match backward::grad_at(p.grads, leaf, 0) {
            None => {
                folded(p, s, leaves, kept, i + 1, vs);
            },
            Some(k) => {
                assert(s.contains(leaf));
                let new = p.grads[k].1;
                let r = PlanV { grads: p.grads.remove(k), ..p };
                let (next, more) = match memory::value_of(kept, leaf) {
                    None => (r.emit(StepV::Store { leaf, value: new }), vs),
                    Some(prev) => (
                        r.emit(
                            StepV::Call {
                                slot: BwdSlot::GradAcc,
                                args: seq![Value::Tensor(prev), Value::Temp(new)],
                            },
                        ).emit(StepV::Store { leaf, value: r.next() }),
                        vs.push(Value::Tensor(prev)).push(Value::Temp(new)),
                    ),
                };
                assert forall|h: u64|
                    backward::grad_at(next.grads, h, 0) is Some implies #[trigger] s.contains(h) by {
                    if h != leaf {
                        removed_grads(p.grads, k, h);
                    }
                }
                assert forall|j: int| 0 <= j < more.len() implies old_grad(
                    #[trigger] more[j],
                    leaves,
                    kept,
                    s,
                ) by {
                    if j < vs.len() {
                        assert(more[j] == vs[j]);
                    }
                }
                let last = next.steps.len() - 1;
                assert(next.steps[last] is Store && next.steps[last]->Store_leaf == leaf);
                folded(next, s, leaves, kept, i + 1, more);
                assert(stores(next.steps, leaf));
                stores_on(next.steps, q.steps, leaf);
                assert forall|j: int|
                    i <= j < leaves.len() && backward::grad_at(p.grads, #[trigger] leaves[j], 0)
                        is Some implies stores(q.steps, leaves[j]) by {
                    if leaves[j] != leaf {
                        removed_grads(p.grads, k, leaves[j]);
                    }
                }
                assert forall|j: int| 0 <= j < p.steps.len() implies #[trigger] q.steps[j]
                    == p.steps[j] by {
                    assert(q.steps[j] == next.steps[j]);
                }
            },
        }
    }
}

/// A backward pass stores a gradient for exactly the leaves that gradients
/// reach from the loss, and the only tensors it releases are the gradients
/// that those leaves had.
pub proof fn backward_stores_reached_leaves(mem: MemV, nodes: Seq<NodeV>, loss: u64)
    requires
        backward::backward_plan(mem, nodes, loss) is Ok,
    ensures
        ({
            let steps = backward::backward_plan(mem, nodes, loss)->Ok_0;
            let s = reached(nodes, nodes.len(), set![loss]);
            &&& forall|k: int|
                0 <= k < steps.len() && #[trigger] steps[k] is Store ==> mem.leaves.contains(
                    steps[k]->Store_leaf,
                ) && s.contains(steps[k]->Store_leaf)
            &&& forall|leaf: u64| #[trigger]
                mem.leaves.contains(leaf) && s.contains(leaf) ==> stores(steps, leaf)
            &&& forall|k: int, g: u64|
                0 <= k < steps.len() && #[trigger] steps[k] == StepV::Release(Value::Tensor(g))
                    ==> #[trigger] is_old_grad(mem, s, g)
        }),
{
    let p0 = backward::seeded(loss);
    let s0 = set![loss];
    let s = reached(nodes, nodes.len(), s0);
    assert(has_grads(p0, s0)) by {
        assert forall|h: u64| #[trigger] s0.contains(h) <==> backward::grad_at(p0.grads, h, 0)
            is Some by {
            grad_known(p0.grads, h);
            assert(p0.grads[0].0 == loss);
        }
    }
    walked(p0, s0, mem, nodes, nodes.len());
    let p1 = p0.walk(mem, nodes, nodes.len())->Ok_0;
    folded(p1, s, mem.leaves, mem.leaf_grad, 0, Seq::empty());
    let (p2, vs) = p1.fold_leaves(mem.leaves, mem.leaf_grad, 0, Seq::empty());
    values_go_on(p2, vs, 0);
    let p3 = p2.release_values(vs, 0);
    grads_go_on(p3, 0);
    let steps = p3.release_grads(0).steps;
    assert forall|k: int| 0 <= k < steps.len() && #[trigger] steps[k] is Store implies mem.leaves.contains(
        steps[k]->Store_leaf,
    ) && s.contains(steps[k]->Store_leaf) by {
        if k < p2.steps.len() {
            assert(p3.steps[k] == p2.steps[k]);
        }
        if k < p3.steps.len() {
            assert(steps[k] == p3.steps[k]);
        }
    }
    assert forall|leaf: u64| #[trigger]
        mem.leaves.contains(leaf) && s.contains(leaf) implies stores(steps, leaf) by {
        let j = choose|j: int| 0 <= j < mem.leaves.len() && mem.leaves[j] == leaf;
        assert(backward::grad_at(p1.grads, mem.leaves[j], 0) is Some);
        stores_on(p2.steps, p3.steps, leaf);
        stores_on(p3.steps, steps, leaf);
    }
    assert forall|k: int, g: u64|
        0 <= k < steps.len() && #[trigger] steps[k] == StepV::Release(
            Value::Tensor(g),
        ) implies #[trigger] is_old_grad(mem, s, g) by {
        if k < p2.steps.len() {
            assert(p3.steps[k] == p2.steps[k]);
        }
        if k < p3.steps.len() {
            assert(steps[k] == p3.steps[k]);
            let j = choose|j: int| 0 <= j < vs.len() && #[trigger] vs[j] == steps[k]->Release_0;
            assert(old_grad(vs[j], mem.leaves, mem.leaf_grad, s));
        }
    }
}

/// Whether a tensor is kept as the gradient of a leaf of a set.
pub open spec fn is_old_grad(mem: MemV, s: Set<u64>, g: u64) -> bool {
    exists|leaf: u64| #[trigger]
        mem.leaves.contains(leaf) && s.contains(leaf) && memory::value_of(mem.leaf_grad, leaf)
            == Some(g)
}

/// Gradients reach only tensors that feed the loss.
pub proof fn reached_feeds(nodes: Seq<NodeV>, loss: u64, h: u64)
    requires
        reached(nodes, nodes.len(), set![loss]).contains(h),
    ensures
        exists|depth: nat| #[trigger] feeds(nodes, loss, h, depth),
{
    assert forall|x: u64| set![loss].contains(x) implies #[trigger] feeds(nodes, loss, x, 0) by {}
    reached_deep(nodes, nodes.len(), loss, set![loss], 0, h);
}

proof fn reached_deep(nodes: Seq<NodeV>, n: nat, loss: u64, s: Set<u64>, depth: nat, h: u64)
    requires
        n <= nodes.len(),
        forall|x: u64| s.contains(x) ==> #[trigger] feeds(nodes, loss, x, depth),
        reached(nodes, n, s).contains(h),
    ensures
        exists|d: nat| #[trigger] feeds(nodes, loss, h, d),
    decreases n,
{
    if n == 0 {
        assert(feeds(nodes, loss, h, depth));
    } else {
        let node = nodes[n - 1];
        if s.contains(node.output) {
            let t = s.union(node.inputs());
            assert forall|x: u64| t.contains(x) implies #[trigger] feeds(
                nodes,
                loss,
                x,
                depth + 1,
            ) by {
                if s.contains(x) {
                    assert(feeds(nodes, loss, x, depth));
                    feeds_deeper(nodes, loss, x, depth);
                } else {
                    assert(feeds(nodes, loss, node.output, depth));
                    assert(nodes[n - 1].inputs().contains(x));
                }
            }
            reached_deep(nodes, (n - 1) as nat, loss, t, depth + 1, h);
        } else {
            reached_deep(nodes, (n - 1) as nat, loss, s, depth, h);
        }
    }
}

proof fn feeds_deeper(nodes: Seq<NodeV>, loss: u64, h: u64, depth: nat)
    requires
        feeds(nodes, loss, h, depth),
    ensures
        feeds(nodes, loss, h, depth + 1),
    decreases depth,
{
    if h != loss {
        let i = choose|i: int|
            0 <= i < nodes.len() && (#[trigger] nodes[i]).inputs().contains(h) && feeds(
                nodes,
                loss,
                nodes[i].output,
                (depth - 1) as nat,
            );
        feeds_deeper(nodes, loss, nodes[i].output, (depth - 1) as nat);
        assert(nodes[i].inputs().contains(h));
    }
}

/// Memory after the first `n` steps have stored their gradients, where
/// `result` gives the result of each step.
pub open spec fn stored(mem: MemV, steps: Seq<StepV>, n: nat, result: spec_fn(usize) -> u64) -> MemV
    decreases n,
{
    if n == 0 {
        mem
    } else {
        let before = stored(mem, steps, (n - 1) as nat, result);
        match steps[n - 1] {
            StepV::Store { leaf, value } => before.with_leaf_grad(leaf, result(value)),
            _ => before,
        }
    }
}

proof fn key_known(s: Seq<(u64, u64)>, k: u64)
    ensures
        memory::key_at(s, k, 0) is Some <==> exists|j: int|
            0 <= j < s.len() && (#[trigger] s[j]).0 == k,
{
    memory::key_at_bounds(s, k, 0);
}

/// Where the first entry with a key stands after another one was taken out.
proof fn key_removed(s: Seq<(u64, u64)>, at: int, k: u64, i: nat)
    requires
        0 <= at < s.len(),
        s[at].0 != k,
        i <= at,
    ensures
        match (memory::key_at(s, k, i), memory::key_at(s.remove(at), k, i)) {
            (Some(a), Some(b)) => s[a] == s.remove(at)[b],
            (None, None) => true,
            _ => false,
        },
    decreases at - i,
{
    let r = s.remove(at);
    if i == at {
        assert(memory::key_at(s, k, i) == memory::key_at(s, k, i + 1));
        key_shifted(s, at, k, i + 1);
    } else {
        assert(r[i as int] == s[i as int]);
        if s[i as int].0 != k {
            key_removed(s, at, k, i + 1);
        }
    }
}

proof fn key_shifted(s: Seq<(u64, u64)>, at: int, k: u64, i: nat)
    requires
        0 <= at < s.len(),
        i > at,
    ensures
        match (memory::key_at(s, k, i), memory::key_at(s.remove(at), k, (i - 1) as nat)) {
            (Some(a), Some(b)) => s[a] == s.remove(at)[b],
            (None, None) => true,
            _ => false,
        },
    decreases s.len() - i,
{
    if i < s.len() {
        assert(s.remove(at)[i - 1] == s[i as int]);
        if s[i as int].0 != k {
            key_shifted(s, at, k, i + 1);
        }
    }
}

proof fn key_pushed(s: Seq<(u64, u64)>, e: (u64, u64), k: u64, i: nat)
    requires
        e.0 != k,
        i <= s.len(),
    ensures
        memory::key_at(s.push(e), k, i) == memory::key_at(s, k, i),
    decreases s.len() - i,
{
    if i < s.len() {
        assert(s.push(e)[i as int] == s[i as int]);
        key_pushed(s, e, k, i + 1);
    } else {
        assert(s.push(e)[i as int] == e);
        assert(memory::key_at(s.push(e), k, i + 1) is None);
    }
}

/// Keeping a gradient for a leaf leaves the entries of others alone.
pub proof fn other_entries_stay(mem: MemV, leaf: u64, grad: u64, h: u64)
    requires
        h != leaf,
    ensures
        memory::value_of(mem.with_leaf_grad(leaf, grad).leaf_grad, h) == memory::value_of(
            mem.leaf_grad,
            h,
        ),
{
    let g = mem.leaf_grad;
    memory::key_at_bounds(g, leaf, 0);
    memory::key_at_bounds(g, h, 0);
    let w = memory::without_key(g, leaf);
    match memory::key_at(g, leaf, 0) {
        Some(p) => {
            key_removed(g, p, h, 0);
        },
        None => {},
    }
    memory::key_at_bounds(w, h, 0);
    key_pushed(w, (leaf, grad), h, 0);
}

proof fn stored_keeps(
    mem: MemV,
    steps: Seq<StepV>,
    n: nat,
    result: spec_fn(usize) -> u64,
    h: u64,
)
    requires
        n <= steps.len(),
        !stores(steps, h),
    ensures
        memory::value_of(stored(mem, steps, n, result).leaf_grad, h) == memory::value_of(
            mem.leaf_grad,
            h,
        ),
        stored(mem, steps, n, result).leaves == mem.leaves,
    decreases n,
{
    if n > 0 {
        stored_keeps(mem, steps, (n - 1) as nat, result, h);
        let before = stored(mem, steps, (n - 1) as nat, result);
        match steps[n - 1] {
            StepV::Store { leaf, value } => {
                assert(steps[n - 1] is Store);
                other_entries_stay(before, leaf, result(value), h);
            },
            _ => {},
        }
    }
}

proof fn stored_leaves(mem: MemV, steps: Seq<StepV>, n: nat, result: spec_fn(usize) -> u64)
    ensures
        stored(mem, steps, n, result).leaves == mem.leaves,
    decreases n,
{
    if n > 0 {
        stored_leaves(mem, steps, (n - 1) as nat, result);
    }
}

proof fn stored_has(
    mem: MemV,
    steps: Seq<StepV>,
    n: nat,
    result: spec_fn(usize) -> u64,
    at: int,
)
    requires
        0 <= at < n <= steps.len(),
        steps[at] is Store,
    ensures
        memory::value_of(
            stored(mem, steps, n, result).leaf_grad,
            steps[at]->Store_leaf,
        ) is Some,
    decreases n,
{
    let h = steps[at]->Store_leaf;
    let before = stored(mem, steps, (n - 1) as nat, result);
    match steps[n - 1] {
        StepV::Store { leaf, value } => {
            if leaf == h {
                let w = memory::without_key(before.leaf_grad, leaf);
                let g = w.push((leaf, result(value)));
                assert(g[w.len() as int].0 == h);
                key_known(g, h);
            } else {
                stored_has(mem, steps, (n - 1) as nat, result, at);
                other_entries_stay(before, leaf, result(value), h);
            }
        },
        _ => {
            stored_has(mem, steps, (n - 1) as nat, result, at);
        },
    }
}

/// A backward pass leaves the leaves as they are. A leaf that is not the loss
/// and does not feed it keeps exactly its gradient, and none where it had none;
/// so does a tensor that is no leaf. A leaf that gradients reach has one
/// afterwards.
pub proof fn backward_frame(
    mem: MemV,
    nodes: Seq<NodeV>,
    loss: u64,
    result: spec_fn(usize) -> u64,
    h: u64,
)
    requires
        backward::backward_plan(mem, nodes, loss) is Ok,
    ensures
        ({
            let steps = backward::backward_plan(mem, nodes, loss)->Ok_0;
            let after = stored(mem, steps, steps.len(), result);
            &&& after.leaves == mem.leaves
            &&& !mem.leaves.contains(h) || (forall|depth: nat| !#[trigger] feeds(nodes, loss, h, depth))
                ==> memory::value_of(after.leaf_grad, h) == memory::value_of(mem.leaf_grad, h)
            &&& mem.leaves.contains(h) && reached(nodes, nodes.len(), set![loss]).contains(h)
                ==> memory::value_of(after.leaf_grad, h) is Some
        }),
{
    let steps = backward::backward_plan(mem, nodes, loss)->Ok_0;
    let s = reached(nodes, nodes.len(), set![loss]);
    backward_stores_reached_leaves(mem, nodes, loss);
    stored_leaves(mem, steps, steps.len(), result);
    if stores(steps, h) {
        let k = choose|k: int|
            0 <= k < steps.len() && #[trigger] steps[k] is Store && steps[k]->Store_leaf == h;
        stored_has(mem, steps, steps.len(), result, k);
        reached_feeds(nodes, loss, h);
    } else {
        stored_keeps(mem, steps, steps.len(), result, h);
    }
}

} // verus!
