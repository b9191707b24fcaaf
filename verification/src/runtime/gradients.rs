//! What a backward pass computes: the gradient of the recorded operations. The
//! functions of the library are taken as given, each as the derivative of the
//! operation that it is named after.

use crate::runtime::backward;
use crate::runtime::backward::{PlanV, StepV, Value};
use crate::runtime::backward_laws;
use crate::runtime::memory;
use crate::runtime::memory::MemV;
use crate::runtime::permute;
use crate::runtime::tags::{BwdSlot, OpTag};
use crate::runtime::tape::NodeV;
use crate::text;
use vstd::prelude::*;

verus! {

/// An argument of a library function: a tensor, known by an integer, a number,
/// or minus one as a float.
pub enum Arg {
    Tensor(int),
    Int(int),
    MinusOne,
}

/// What an operation was recorded with: the contents of the saved tensors and
/// of the output, and numbers.
pub struct Recorded {
    pub saved: Seq<int>,
    pub output: int,
    pub meta: Seq<i64>,
}

/// Tensors and what can be done with them, left open.
pub struct Analysis {
    /// The content of a tensor.
    pub content: spec_fn(u64) -> int,
    /// Ones in the shape of a tensor.
    pub ones: spec_fn(u64) -> int,
    /// The same elements in the shape of a tensor.
    pub reshaped: spec_fn(int, u64) -> int,
    /// With the dimensions in another order.
    pub permuted: spec_fn(int, Seq<usize>) -> int,
    pub sum: spec_fn(int, int) -> int,
    pub product: spec_fn(int, int) -> int,
    pub quotient: spec_fn(int, int) -> int,
    pub negative: spec_fn(int) -> int,
    /// What a library function gives on some arguments.
    pub call: spec_fn(Seq<char>, Seq<Arg>) -> int,
    /// The derivative of an operation by one of its inputs, at what it was
    /// recorded with, applied to the gradient of the output.
    pub pull: spec_fn(OpTag, nat, Recorded, int) -> int,
}

impl OpTag {
    /// Name of an operation.
    pub open spec fn text(self) -> Seq<char> {
        match self {
            OpTag::Matmul => "matmul"@,
            OpTag::Add => "add"@,
            OpTag::Sub => "sub"@,
            OpTag::Mul => "mul"@,
            OpTag::Div => "div"@,
            OpTag::Sigmoid => "sigmoid"@,
            OpTag::Relu => "relu"@,
            OpTag::Tanh => "tanh"@,
            OpTag::Exp => "exp"@,
            OpTag::Log => "log"@,
            OpTag::Sqrt => "sqrt"@,
            OpTag::Abs => "abs"@,
            OpTag::Sum => "sum"@,
            OpTag::Transpose => "transpose"@,
            OpTag::Neg => "neg"@,
            OpTag::ReduceSumAxis => "reduce_sum_axis"@,
            OpTag::ReduceMeanAxis => "reduce_mean_axis"@,
            OpTag::ReduceMaxAxis => "reduce_max_axis"@,
            OpTag::ReduceVarAxis => "reduce_var_axis"@,
            OpTag::Reshape => "reshape"@,
            OpTag::Softmax => "softmax"@,
            OpTag::Layernorm => "layernorm"@,
            OpTag::Gelu => "gelu"@,
            OpTag::CrossEntropy => "cross_entropy"@,
            OpTag::Embedding => "embedding"@,
        }
    }

    /// Whether an operation has two inputs with gradients.
    pub open spec fn has_two(self) -> bool {
        self is Matmul || self is Add || self is Sub || self is Mul || self is Div
    }

    /// Whether the library has a function for the derivative. The derivatives
    /// of the others are products, quotients, negations and changes of shape.
    pub open spec fn has_function(self) -> bool {
        !(self is Exp || self is Log || self is Neg || self is Transpose || self is Reshape)
    }
}

/// Name of the library function for the derivative of an operation by an
/// input: the name of the operation, and where there are two inputs, which.
pub open spec fn bwd_name(op: OpTag, k: nat) -> Seq<char> {
    let name = seq!['_', '_'] + op.text() + seq!['_', 'b', 'w', 'd'];
    if !op.has_two() {
        name
    } else if k == 0 {
        name + seq!['_', 'a']
    } else {
        name + seq!['_', 'b']
    }
}

/// What such a function takes: what the derivative depends on, and the gradient
/// of the output.
pub open spec fn bwd_args(op: OpTag, k: nat, r: Recorded, dout: int) -> Seq<Arg> {
    let saved = |i: int| Arg::Tensor(r.saved[i]);
    let axis = Arg::Int(r.meta[0] as int);
    let output = Arg::Tensor(r.output);
    let d = Arg::Tensor(dout);
    match op {
        OpTag::Matmul | OpTag::Embedding => seq![saved(0), saved(1), d],
        OpTag::Add | OpTag::Sub => seq![d, saved(k as int)],
        OpTag::Mul | OpTag::Div => seq![d, saved(0), saved(1)],
        OpTag::Relu | OpTag::Abs | OpTag::Sum | OpTag::Gelu => seq![saved(0), d],
        OpTag::Sigmoid | OpTag::Tanh | OpTag::Sqrt => seq![output, d],
        OpTag::ReduceSumAxis | OpTag::ReduceMeanAxis | OpTag::ReduceVarAxis => seq![
            saved(0),
            d,
            axis,
        ],
        OpTag::ReduceMaxAxis => seq![saved(0), output, d, axis],
        OpTag::Softmax => seq![output, d, axis],
        OpTag::Layernorm => seq![output, saved(1), d, axis],
        OpTag::CrossEntropy => seq![saved(1), saved(2), d],
        _ => Seq::empty(),
    }
}

/// Arguments of a reordering: a tensor and eight dimension numbers, zero where
/// there are fewer.
pub open spec fn permute_args(x: int, dims: Seq<usize>) -> Seq<Arg> {
    Seq::new(
        9,
        |i: int|
            if i == 0 {
                Arg::Tensor(x)
            } else if i - 1 < dims.len() {
                Arg::Int(dims[i - 1] as int)
            } else {
                Arg::Int(0)
            },
    )
}

impl Analysis {
    /// Whether the functions of the library are what their names say.
    pub open spec fn fits(self) -> bool {
        &&& forall|op: OpTag, k: nat, r: Recorded, dout: int|
            op.has_function() ==> (self.call)(
                bwd_name(op, k),
                #[trigger] bwd_args(op, k, r, dout),
            ) == (self.pull)(op, k, r, dout)
        &&& forall|x: int, y: int| #[trigger]
            (self.sum)(x, y) == (self.call)(
                "__broadcast_add_fwd"@,
                seq![Arg::Tensor(x), Arg::Tensor(y)],
            )
        &&& forall|x: int, y: int| #[trigger]
            (self.product)(x, y) == (self.call)(
                "__broadcast_mul_fwd"@,
                seq![Arg::Tensor(x), Arg::Tensor(y)],
            )
        &&& forall|x: int, y: int| #[trigger]
            (self.quotient)(x, y) == (self.call)(
                "__broadcast_div_fwd"@,
                seq![Arg::Tensor(x), Arg::Tensor(y)],
            )
        &&& forall|x: int| #[trigger]
            (self.negative)(x) == (self.call)(
                "__scale_fwd"@,
                seq![Arg::Tensor(x), Arg::MinusOne],
            )
        &&& forall|x: int, dims: Seq<usize>| #[trigger]
            (self.permuted)(x, dims) == (self.call)(
                "__permute_nd_fwd"@,
                permute_args(x, dims),
            )
    }

    pub open spec fn recorded(self, node: NodeV) -> Recorded {
        Recorded {
            saved: node.saved.map_values(|h: u64| (self.content)(h)),
            output: (self.content)(node.output),
            meta: node.meta,
        }
    }

    /// The derivative of a recorded operation by an input, applied to the
    /// gradient of the output. That of `exp` is its result, that of `log` the
    /// inverse of its operand, and that of a negation minus one; reorderings
    /// and reshapes are undone.
    pub open spec fn backwards(self, mem: MemV, node: NodeV, k: nat, dout: int) -> int {
        match node.op {
            OpTag::Exp => (self.product)(dout, (self.content)(node.output)),
            OpTag::Log => (self.quotient)(dout, (self.content)(node.saved[0])),
            OpTag::Neg => (self.negative)(dout),
            OpTag::Transpose => (self.permuted)(
                dout,
                permute::inverse(
                    permute::perm_of(node.dims, mem.tensors[node.saved[0]].shape.len())->Ok_0,
                ),
            ),
            OpTag::Reshape => (self.reshaped)(dout, node.saved[0]),
            _ => (self.pull)(node.op, k, self.recorded(node), dout),
        }
    }

    /// With a contribution to the gradient of a tensor.
    pub open spec fn plus(self, g: Map<u64, int>, h: u64, x: int) -> Map<u64, int> {
        g.insert(
            h,
            if g.contains_key(h) {
                (self.sum)(g[h], x)
            } else {
                x
            },
        )
    }

    /// Gradients behind an operation: each of its inputs has a contribution.
    pub open spec fn through(self, mem: MemV, node: NodeV, g: Map<u64, int>) -> Map<u64, int> {
        let dout = g[node.output];
        let one = self.plus(g, node.saved[0], self.backwards(mem, node, 0, dout));
        if node.op.has_two() {
            self.plus(one, node.saved[1], self.backwards(mem, node, 1, dout))
        } else {
            one
        }
    }

    /// Gradients behind the first `n` operations, last first: the chain rule.
    pub open spec fn chained(self, mem: MemV, nodes: Seq<NodeV>, n: nat, g: Map<u64, int>) -> Map<
        u64,
        int,
    >
        decreases n,
    {
        if n == 0 {
            g
        } else if g.contains_key(nodes[n - 1].output) {
            self.chained(mem, nodes, (n - 1) as nat, self.through(mem, nodes[n - 1], g))
        } else {
            self.chained(mem, nodes, (n - 1) as nat, g)
        }
    }

    /// The gradients of a loss: its own is one.
    pub open spec fn gradients(self, mem: MemV, nodes: Seq<NodeV>, loss: u64) -> Map<u64, int> {
        self.chained(mem, nodes, nodes.len(), map![loss => (self.ones)(loss)])
    }

    /// What a value stands for, after some results.
    pub open spec fn arg(self, results: Seq<int>, v: Value) -> Arg {
        match v {
            Value::Tensor(h) => Arg::Tensor((self.content)(h)),
            Value::Temp(t) => Arg::Tensor(results[t as int]),
            Value::Int(i) => Arg::Int(i as int),
            Value::MinusOne => Arg::MinusOne,
        }
    }

    pub open spec fn args(self, results: Seq<int>, vs: Seq<Value>) -> Seq<Arg> {
        vs.map_values(|v: Value| self.arg(results, v))
    }

    /// The result of a step.
    pub open spec fn result(self, results: Seq<int>, s: StepV) -> int {
        match s {
            StepV::Ones { like } => (self.ones)(like),
            StepV::Call { slot, args } => (self.call)(slot.fn_text(), self.args(results, args)),
            StepV::Reshape { of, like } => (self.reshaped)(results[of as int], like),
            _ => 0,
        }
    }

    /// The results of some steps.
    pub open spec fn results(self, steps: Seq<StepV>) -> Seq<int>
        decreases steps.len(),
    {
        if steps.len() == 0 {
            Seq::empty()
        } else {
            let before = self.results(steps.drop_last());
            before.push(self.result(before, steps.last()))
        }
    }

    /// Whether a plan computes some gradients.
    pub open spec fn computes(self, p: PlanV, g: Map<u64, int>) -> bool {
        &&& p.steps.len() <= usize::MAX
        &&& forall|i: int|
            0 <= i < p.grads.len() ==> {
                &&& g.contains_key((#[trigger] p.grads[i]).0)
                &&& p.grads[i].1 < p.steps.len()
                &&& self.results(p.steps)[p.grads[i].1 as int] == g[p.grads[i].0]
            }
        &&& forall|i: int, j: int|
            0 <= i < j < p.grads.len() ==> (#[trigger] p.grads[i]).0 != (#[trigger] p.grads[j]).0
        &&& forall|h: u64| #[trigger]
            g.contains_key(h) ==> exists|i: int|
                0 <= i < p.grads.len() && (#[trigger] p.grads[i]).0 == h
    }
}

/// Every backward function is named after the operation whose derivative it is.
pub proof fn slots_are_named_after_their_operation(node: NodeV, dout: usize, k: int)
    requires
        node.op.has_function(),
        0 <= k < node.calls(dout).len(),
    ensures
        node.calls(dout)[k].1.fn_text() == bwd_name(node.op, k as nat),
{
    let op = node.op;
    reveal_with_fuel(text::same_from, 26);
    match op {
        OpTag::Matmul => {
            reveal_strlit("matmul");
            reveal_strlit("__matmul_bwd_a");
            text::same_texts("__matmul_bwd_a"@, bwd_name(op, 0), 0);
            reveal_strlit("__matmul_bwd_b");
            text::same_texts("__matmul_bwd_b"@, bwd_name(op, 1), 0);
        },
        OpTag::Add => {
            reveal_strlit("add");
            reveal_strlit("__add_bwd_a");
            text::same_texts("__add_bwd_a"@, bwd_name(op, 0), 0);
            reveal_strlit("__add_bwd_b");
            text::same_texts("__add_bwd_b"@, bwd_name(op, 1), 0);
        },
        OpTag::Sub => {
            reveal_strlit("sub");
            reveal_strlit("__sub_bwd_a");
            text::same_texts("__sub_bwd_a"@, bwd_name(op, 0), 0);
            reveal_strlit("__sub_bwd_b");
            text::same_texts("__sub_bwd_b"@, bwd_name(op, 1), 0);
        },
        OpTag::Mul => {
            reveal_strlit("mul");
            reveal_strlit("__mul_bwd_a");
            text::same_texts("__mul_bwd_a"@, bwd_name(op, 0), 0);
            reveal_strlit("__mul_bwd_b");
            text::same_texts("__mul_bwd_b"@, bwd_name(op, 1), 0);
        },
        OpTag::Div => {
            reveal_strlit("div");
            reveal_strlit("__div_bwd_a");
            text::same_texts("__div_bwd_a"@, bwd_name(op, 0), 0);
            reveal_strlit("__div_bwd_b");
            text::same_texts("__div_bwd_b"@, bwd_name(op, 1), 0);
        },
        OpTag::Sigmoid => {
            reveal_strlit("sigmoid");
            reveal_strlit("__sigmoid_bwd");
            text::same_texts("__sigmoid_bwd"@, bwd_name(op, 0), 0);
        },
        OpTag::Relu => {
            reveal_strlit("relu");
            reveal_strlit("__relu_bwd");
            text::same_texts("__relu_bwd"@, bwd_name(op, 0), 0);
        },
        OpTag::Tanh => {
            reveal_strlit("tanh");
            reveal_strlit("__tanh_bwd");
            text::same_texts("__tanh_bwd"@, bwd_name(op, 0), 0);
        },
        OpTag::Sqrt => {
            reveal_strlit("sqrt");
            reveal_strlit("__sqrt_bwd");
            text::same_texts("__sqrt_bwd"@, bwd_name(op, 0), 0);
        },
        OpTag::Abs => {
            reveal_strlit("abs");
            reveal_strlit("__abs_bwd");
            text::same_texts("__abs_bwd"@, bwd_name(op, 0), 0);
        },
        OpTag::Sum => {
            reveal_strlit("sum");
            reveal_strlit("__sum_bwd");
            text::same_texts("__sum_bwd"@, bwd_name(op, 0), 0);
        },
        OpTag::ReduceSumAxis => {
            reveal_strlit("reduce_sum_axis");
            reveal_strlit("__reduce_sum_axis_bwd");
            text::same_texts("__reduce_sum_axis_bwd"@, bwd_name(op, 0), 0);
        },
        OpTag::ReduceMeanAxis => {
            reveal_strlit("reduce_mean_axis");
            reveal_strlit("__reduce_mean_axis_bwd");
            text::same_texts("__reduce_mean_axis_bwd"@, bwd_name(op, 0), 0);
        },
        OpTag::ReduceMaxAxis => {
            reveal_strlit("reduce_max_axis");
            reveal_strlit("__reduce_max_axis_bwd");
            text::same_texts("__reduce_max_axis_bwd"@, bwd_name(op, 0), 0);
        },
        OpTag::ReduceVarAxis => {
            reveal_strlit("reduce_var_axis");
            reveal_strlit("__reduce_var_axis_bwd");
            text::same_texts("__reduce_var_axis_bwd"@, bwd_name(op, 0), 0);
        },
        OpTag::Softmax => {
            reveal_strlit("softmax");
            reveal_strlit("__softmax_bwd");
            text::same_texts("__softmax_bwd"@, bwd_name(op, 0), 0);
        },
        OpTag::Layernorm => {
            reveal_strlit("layernorm");
            reveal_strlit("__layernorm_bwd");
            text::same_texts("__layernorm_bwd"@, bwd_name(op, 0), 0);
        },
        OpTag::Gelu => {
            reveal_strlit("gelu");
            reveal_strlit("__gelu_bwd");
            text::same_texts("__gelu_bwd"@, bwd_name(op, 0), 0);
        },
        OpTag::CrossEntropy => {
            reveal_strlit("cross_entropy");
            reveal_strlit("__cross_entropy_bwd");
            text::same_texts("__cross_entropy_bwd"@, bwd_name(op, 0), 0);
        },
        OpTag::Embedding => {
            reveal_strlit("embedding");
            reveal_strlit("__embedding_bwd");
            text::same_texts("__embedding_bwd"@, bwd_name(op, 0), 0);
        },
        _ => {},
    }
}

/// Different operations have different backward functions.
pub proof fn slots_are_not_shared(x: NodeV, y: NodeV, dout: usize, i: int, j: int)
    requires
        0 <= i < x.calls(dout).len(),
        0 <= j < y.calls(dout).len(),
        x.calls(dout)[i].1 == y.calls(dout)[j].1,
    ensures
        x.op == y.op,
        i == j,
{
}

/// What the call for an input of an operation gives is the derivative by that
/// input.
proof fn calls_differentiate(a: Analysis, mem: MemV, node: NodeV, dout: usize, rs: Seq<int>, k: int)
    requires
        a.fits(),
        node.complete(),
        0 <= k < node.calls(dout).len(),
        dout < rs.len(),
    ensures
        ({
            let (h, slot, args) = node.calls(dout)[k];
            &&& h == node.saved[k]
            &&& (a.call)(slot.fn_text(), a.args(rs, args)) == a.backwards(
                mem,
                node,
                k as nat,
                rs[dout as int],
            )
        }),
        node.calls(dout).len() == if node.op.has_two() {
            2nat
        } else {
            1nat
        },
{
    let (h, slot, args) = node.calls(dout)[k];
    let d = rs[dout as int];
    let r = a.recorded(node);
    if node.op.has_function() {
        slots_are_named_after_their_operation(node, dout, k);
        assert(a.args(rs, args) =~= bwd_args(node.op, k as nat, r, d));
    } else if node.op is Exp {
        let y = (a.content)(node.output);
        assert(a.args(rs, args) =~= seq![Arg::Tensor(d), Arg::Tensor(y)]);
        assert((a.product)(d, y) == (a.product)(d, y));
    } else if node.op is Log {
        let x = (a.content)(node.saved[0]);
        assert(a.args(rs, args) =~= seq![Arg::Tensor(d), Arg::Tensor(x)]);
        assert((a.quotient)(d, x) == (a.quotient)(d, x));
    } else {
        assert(a.args(rs, args) =~= seq![Arg::Tensor(d), Arg::MinusOne]);
        assert((a.negative)(d) == (a.negative)(d));
    }
}

proof fn results_len(a: Analysis, steps: Seq<StepV>)
    ensures
        a.results(steps).len() == steps.len(),
    decreases steps.len(),
{
    if steps.len() > 0 {
        results_len(a, steps.drop_last());
    }
}

/// One more step has one more result, and the others stay.
proof fn results_push(a: Analysis, steps: Seq<StepV>, s: StepV)
    ensures
        a.results(steps.push(s)) == a.results(steps).push(a.result(a.results(steps), s)),
        a.results(steps).len() == steps.len(),
        a.results(steps.push(s)).len() == steps.len() + 1,
{
    assert(steps.push(s).drop_last() =~= steps);
    results_len(a, steps);
}

/// A step changes no gradient.
proof fn emit_keeps(a: Analysis, p: PlanV, g: Map<u64, int>, s: StepV)
    requires
        a.computes(p, g),
        p.steps.len() < usize::MAX,
    ensures
        a.computes(p.emit(s), g),
        a.results(p.emit(s).steps).len() == p.steps.len() + 1,
        a.results(p.emit(s).steps)[p.steps.len() as int] == a.result(a.results(p.steps), s),
        forall|i: int|
            0 <= i < p.steps.len() ==> #[trigger] a.results(p.emit(s).steps)[i] == a.results(
                p.steps,
            )[i],
{
    results_push(a, p.steps, s);
    let q = p.emit(s);
    assert forall|i: int| 0 <= i < q.grads.len() implies {
        &&& g.contains_key((#[trigger] q.grads[i]).0)
        &&& q.grads[i].1 < q.steps.len()
        &&& a.results(q.steps)[q.grads[i].1 as int] == g[q.grads[i].0]
    } by {
        assert(p.grads[i] == q.grads[i]);
    }
    assert forall|h: u64| #[trigger] g.contains_key(h) implies exists|i: int|
        0 <= i < q.grads.len() && (#[trigger] q.grads[i]).0 == h by {
        let i = choose|i: int| 0 <= i < p.grads.len() && (#[trigger] p.grads[i]).0 == h;
        assert(q.grads[i].0 == h);
    }
}

/// A result is added to the gradient of a tensor.
proof fn accumulate_adds(a: Analysis, p: PlanV, g: Map<u64, int>, h: u64, t: usize)
    requires
        a.fits(),
        a.computes(p, g),
        t < p.steps.len(),
        p.accumulate(h, t).steps.len() <= usize::MAX,
    ensures
        a.computes(p.accumulate(h, t), a.plus(g, h, a.results(p.steps)[t as int])),
        forall|i: int|
            0 <= i < p.steps.len() ==> #[trigger] a.results(p.accumulate(h, t).steps)[i]
                == a.results(p.steps)[i],
        p.steps.len() <= p.accumulate(h, t).steps.len(),
{
    let x = a.results(p.steps)[t as int];
    let after = a.plus(g, h, x);
    let q = p.accumulate(h, t);
    backward::grad_at_bounds(p.grads, h, 0);
    match backward::grad_at(p.grads, h, 0) {
        None => {
            assert(!g.contains_key(h));
            grown(a, p, g, h, t, x, q);
        },
        Some(k) => {
            let prev = p.grads[k].1;
            let s1 = StepV::Call {
                slot: BwdSlot::GradAcc,
                args: seq![Value::Temp(prev), Value::Temp(t)],
            };
            let p1 = p.emit(s1);
            let s2 = StepV::Release(Value::Temp(prev));
            let p2 = p1.emit(s2);
            let s3 = StepV::Release(Value::Temp(t));
            let p3 = p2.emit(s3);
            emit_keeps(a, p, g, s1);
            emit_keeps(a, p1, g, s2);
            emit_keeps(a, p2, g, s3);
            let rs = a.results(p.steps);
            assert(a.args(rs, seq![Value::Temp(prev), Value::Temp(t)]) =~= seq![
                Arg::Tensor(rs[prev as int]),
                Arg::Tensor(x),
            ]);
            assert((a.sum)(g[h], x) == (a.sum)(rs[prev as int], x));
            let sum = p.next();
            assert(a.results(p1.steps)[sum as int] == (a.sum)(g[h], x));
            assert(a.results(p3.steps)[sum as int] == (a.sum)(g[h], x));
            replaced(a, p3, g, h, k, sum, (a.sum)(g[h], x), q);
        },
    }
}

proof fn grown(a: Analysis, p: PlanV, g: Map<u64, int>, h: u64, t: usize, x: int, q: PlanV)
    requires
        a.computes(p, g),
        !g.contains_key(h),
        t < p.steps.len(),
        a.results(p.steps)[t as int] == x,
        q == (PlanV { grads: p.grads.push((h, t)), ..p }),
    ensures
        a.computes(q, g.insert(h, x)),
{
    let after = g.insert(h, x);
    assert forall|i: int| 0 <= i < q.grads.len() implies {
        &&& after.contains_key((#[trigger] q.grads[i]).0)
        &&& q.grads[i].1 < q.steps.len()
        &&& a.results(q.steps)[q.grads[i].1 as int] == after[q.grads[i].0]
    } by {
        if i < p.grads.len() {
            assert(q.grads[i] == p.grads[i]);
        }
    }
    assert forall|i: int, j: int| 0 <= i < j < q.grads.len() implies (#[trigger] q.grads[i]).0 != (
    #[trigger] q.grads[j]).0 by {
        assert(q.grads[i] == p.grads[i]);
        if j < p.grads.len() {
            assert(q.grads[j] == p.grads[j]);
        }
    }
    assert forall|k: u64| #[trigger] after.contains_key(k) implies exists|i: int|
        0 <= i < q.grads.len() && (#[trigger] q.grads[i]).0 == k by {
        if k == h {
            assert(q.grads[p.grads.len() as int].0 == k);
        } else {
            assert(g.contains_key(k));
            let i = choose|i: int| 0 <= i < p.grads.len() && (#[trigger] p.grads[i]).0 == k;
            assert(q.grads[i].0 == k);
        }
    }
}

proof fn replaced(
    a: Analysis,
    p: PlanV,
    g: Map<u64, int>,
    h: u64,
    k: int,
    t: usize,
    x: int,
    q: PlanV,
)
    requires
        a.computes(p, g),
        0 <= k < p.grads.len(),
        p.grads[k].0 == h,
        t < p.steps.len(),
        a.results(p.steps)[t as int] == x,
        q == (PlanV { grads: p.grads.remove(k).push((h, t)), ..p }),
    ensures
        a.computes(q, g.insert(h, x)),
{
    let less = PlanV { grads: p.grads.remove(k), ..p };
    taken(a, p, g, k, less);
    grown(a, less, g.remove(h), h, t, x, q);
    assert(g.remove(h).insert(h, x) =~= g.insert(h, x));
}

/// A gradient is taken out.
proof fn taken(a: Analysis, p: PlanV, g: Map<u64, int>, k: int, q: PlanV)
    requires
        a.computes(p, g),
        0 <= k < p.grads.len(),
        q == (PlanV { grads: p.grads.remove(k), ..p }),
    ensures
        a.computes(q, g.remove(p.grads[k].0)),
{
    let after = g.remove(p.grads[k].0);
    let at = |i: int|
        if i < k {
            i
        } else {
            i + 1
        };
    assert forall|i: int| 0 <= i < q.grads.len() implies #[trigger] q.grads[i] == p.grads[at(i)]
        && p.grads[at(i)].0 != p.grads[k].0 by {
        let j = at(i);
        if j < k {
            assert(p.grads[j].0 != p.grads[k].0);
        } else {
            assert(p.grads[k].0 != p.grads[j].0);
        }
    }
    assert forall|i: int| 0 <= i < q.grads.len() implies {
        &&& after.contains_key((#[trigger] q.grads[i]).0)
        &&& q.grads[i].1 < q.steps.len()
        &&& a.results(q.steps)[q.grads[i].1 as int] == after[q.grads[i].0]
    } by {
        assert(q.grads[i] == p.grads[at(i)]);
    }
    assert forall|i: int, j: int| 0 <= i < j < q.grads.len() implies (#[trigger] q.grads[i]).0 != (
    #[trigger] q.grads[j]).0 by {
        assert(p.grads[at(i)].0 != p.grads[at(j)].0);
    }
    assert forall|h: u64| #[trigger] after.contains_key(h) implies exists|i: int|
        0 <= i < q.grads.len() && (#[trigger] q.grads[i]).0 == h by {
        assert(g.contains_key(h));
        let i = choose|i: int| 0 <= i < p.grads.len() && (#[trigger] p.grads[i]).0 == h;
        let j = if i < k {
            i
        } else {
            i - 1
        };
        assert(q.grads[j] == p.grads[i]);
    }
}

/// Visiting a node takes the gradients through its operation.
proof fn visit_differentiates(
    a: Analysis,
    p: PlanV,
    mem: MemV,
    node: NodeV,
    k: int,
    g: Map<u64, int>,
)
    requires
        a.fits(),
        a.computes(p, g),
        0 <= k < p.grads.len(),
        p.grads[k].0 == node.output,
        p.visit(mem, node, p.grads[k].1) is Ok,
        p.visit(mem, node, p.grads[k].1)->Ok_0.steps.len() <= usize::MAX,
    ensures
        a.computes(p.visit(mem, node, p.grads[k].1)->Ok_0, a.through(mem, node, g)),
{
    let dout = p.grads[k].1;
    let rs = a.results(p.steps);
    let d = rs[dout as int];
    assert(d == g[node.output]);
    results_len(a, p.steps);
    let t0 = p.next();
    if node.op is Reshape {
        let s = StepV::Reshape { of: dout, like: node.saved[0] };
        backward_laws::accumulate_grows(p.emit(s), node.saved[0], t0);
        emit_keeps(a, p, g, s);
        accumulate_adds(a, p.emit(s), g, node.saved[0], t0);
    } else if node.op is Transpose {
        let x = node.saved[0];
        let perm = permute::perm_of(node.dims, mem.tensors[x].shape.len())->Ok_0;
        let inv = permute::inverse(perm);
        let args = backward::reorder_args(dout, inv);
        let s = StepV::Call { slot: BwdSlot::PermuteNdFwd, args };
        backward_laws::accumulate_grows(p.emit(s), x, t0);
        emit_keeps(a, p, g, s);
        permutation_small(node, mem);
        assert(a.args(rs, args) =~= permute_args(d, inv)) by {
            assert forall|i: int| 0 <= i < 9 implies a.args(rs, args)[i] == permute_args(
                d,
                inv,
            )[i] by {
                if 1 <= i <= inv.len() {
                    assert(inv[i - 1] < 8);
                }
            }
        }
        assert((a.permuted)(d, inv) == (a.permuted)(d, inv));
        accumulate_adds(a, p.emit(s), g, x, t0);
    } else {
        let calls = node.calls(dout);
        calls_differentiate(a, mem, node, dout, rs, 0);
        let s0 = StepV::Call { slot: calls[0].1, args: calls[0].2 };
        let p0 = p.emit(s0);
        if calls.len() == 2 {
            let s1 = StepV::Call { slot: calls[1].1, args: calls[1].2 };
            let t1 = p0.next();
            let p1 = p0.emit(s1);
            backward_laws::accumulate_grows(p1, calls[0].0, t0);
            let p2 = p1.accumulate(calls[0].0, t0);
            backward_laws::accumulate_grows(p2, calls[1].0, t1);
            emit_keeps(a, p, g, s0);
            emit_keeps(a, p0, g, s1);
            calls_differentiate(a, mem, node, dout, a.results(p0.steps), 1);
            accumulate_adds(a, p1, g, calls[0].0, t0);
            let one = a.plus(g, calls[0].0, a.results(p1.steps)[t0 as int]);
            assert(a.results(p2.steps)[t1 as int] == a.results(p1.steps)[t1 as int]);
            accumulate_adds(a, p2, one, calls[1].0, t1);
        } else {
            backward_laws::accumulate_grows(p0, calls[0].0, t0);
            emit_keeps(a, p, g, s0);
            accumulate_adds(a, p0, g, calls[0].0, t0);
        }
    }
}

/// Dimension numbers of a recorded reordering are small.
proof fn permutation_small(node: NodeV, mem: MemV)
    requires
        ({
            let rank = mem.tensors[node.saved[0]].shape.len();
            permute::perm_of(node.dims, rank) is Ok && rank <= 8
        }),
    ensures
        ({
            let rank = mem.tensors[node.saved[0]].shape.len();
            let inv = permute::inverse(permute::perm_of(node.dims, rank)->Ok_0);
            &&& inv.len() == rank
            &&& forall|i: int| 0 <= i < inv.len() ==> #[trigger] inv[i] < 8
        }),
{
    let rank = mem.tensors[node.saved[0]].shape.len();
    permute::perm_of_is_perm(node.dims, rank);
    permute::inverse_undoes(permute::perm_of(node.dims, rank)->Ok_0, rank);
}

/// The walk over the recorded operations computes their gradients by the chain
/// rule.
proof fn walk_differentiates(
    a: Analysis,
    p: PlanV,
    mem: MemV,
    nodes: Seq<NodeV>,
    n: nat,
    g: Map<u64, int>,
)
    requires
        a.fits(),
        a.computes(p, g),
        p.walk(mem, nodes, n) is Ok,
        p.walk(mem, nodes, n)->Ok_0.steps.len() <= usize::MAX,
    ensures
        a.computes(p.walk(mem, nodes, n)->Ok_0, a.chained(mem, nodes, n, g)),
    decreases n,
{
    if n > 0 {
        let node = nodes[n - 1];
        backward::grad_at_bounds(p.grads, node.output, 0);
        match backward::grad_at(p.grads, node.output, 0) {
            None => {
                assert(!g.contains_key(node.output));
                walk_differentiates(a, p, mem, nodes, (n - 1) as nat, g);
            },
            Some(k) => {
                let q = p.visit(mem, node, p.grads[k].1)->Ok_0;
                backward_laws::walk_grows(q, mem, nodes, (n - 1) as nat);
                visit_differentiates(a, p, mem, node, k, g);
                walk_differentiates(
                    a,
                    q,
                    mem,
                    nodes,
                    (n - 1) as nat,
                    a.through(mem, node, g),
                );
            },
        }
    }
}

/// Whether some steps begin with others.
pub open spec fn extends(s: Seq<StepV>, t: Seq<StepV>) -> bool {
    s.len() <= t.len() && forall|i: int| 0 <= i < s.len() ==> #[trigger] t[i] == s[i]
}

/// The results of steps stay when more follow.
proof fn results_stay(a: Analysis, s: Seq<StepV>, t: Seq<StepV>)
    requires
        extends(s, t),
    ensures
        forall|i: int| 0 <= i < s.len() ==> #[trigger] a.results(t)[i] == a.results(s)[i],
    decreases t.len(),
{
    if s.len() == t.len() {
        assert(s =~= t);
    } else {
        let u = t.drop_last();
        results_stay(a, s, u);
        results_len(a, u);
        results_len(a, s);
        assert forall|i: int| 0 <= i < s.len() implies #[trigger] a.results(t)[i] == a.results(
            s,
        )[i] by {
            assert(a.results(u)[i] == a.results(s)[i]);
        }
    }
}

impl Analysis {
    /// What is kept for a leaf: its gradient, added to the one kept before, if
    /// there is one.
    pub open spec fn kept(self, before: Seq<(u64, u64)>, leaf: u64, x: int) -> int {
        match memory::value_of(before, leaf) {
            None => x,
            Some(prev) => (self.sum)((self.content)(prev), x),
        }
    }

    /// Whether the steps from a position on keep nothing but gradients of
    /// leaves.
    pub open spec fn keeps_only(
        self,
        steps: Seq<StepV>,
        from: int,
        leaves: Seq<u64>,
        before: Seq<(u64, u64)>,
        g: Map<u64, int>,
    ) -> bool {
        forall|j: int|
            from <= j < steps.len() ==> match #[trigger] steps[j] {
                StepV::Store { leaf, value } => {
                    &&& leaves.contains(leaf)
                    &&& g.contains_key(leaf)
                    &&& value < j
                    &&& self.results(steps)[value as int] == self.kept(before, leaf, g[leaf])
                },
                _ => true,
            }
    }
}

/// Whether a step keeps a gradient of a leaf.
pub open spec fn keeps(steps: Seq<StepV>, leaf: u64) -> bool {
    exists|j: int|
        0 <= j < steps.len() && (#[trigger] steps[j]) is Store && steps[j]->leaf == leaf
}

proof fn keeps_on(s: Seq<StepV>, t: Seq<StepV>, leaf: u64)
    requires
        extends(s, t),
        keeps(s, leaf),
    ensures
        keeps(t, leaf),
{
    let j = choose|j: int|
        0 <= j < s.len() && (#[trigger] s[j]) is Store && s[j]->leaf == leaf;
    assert(t[j] == s[j]);
}

/// The gradients of the leaves are kept, and nothing else is.
#[verifier::spinoff_prover]
#[verifier::rlimit(40)]
proof fn fold_keeps(
    a: Analysis,
    p: PlanV,
    g: Map<u64, int>,
    leaves: Seq<u64>,
    before: Seq<(u64, u64)>,
    i: nat,
    vs: Seq<Value>,
)
    requires
        a.fits(),
        a.computes(p, g),
        p.fold_leaves(leaves, before, i, vs).0.steps.len() <= usize::MAX,
    ensures
        ({
            let q = p.fold_leaves(leaves, before, i, vs).0;
            &&& extends(p.steps, q.steps)
            &&& a.keeps_only(q.steps, p.steps.len() as int, leaves, before, g)
            &&& forall|k: int|
                i <= k < leaves.len() && g.contains_key(#[trigger] leaves[k]) ==> keeps(
                    q.steps,
                    leaves[k],
                )
        }),
    decreases leaves.len() - i,
{
    if i < leaves.len() {
        let leaf = leaves[i as int];
        let q = p.fold_leaves(leaves, before, i, vs).0;
        backward::grad_at_bounds(p.grads, leaf, 0);
        match backward::grad_at(p.grads, leaf, 0) {
            None => {
                assert(!g.contains_key(leaf));
                fold_keeps(a, p, g, leaves, before, i + 1, vs);
            },
            Some(k) => {
                let new = p.grads[k].1;
                let less = g.remove(leaf);
                let s = PlanV { grads: p.grads.remove(k), ..p };
                taken(a, p, g, k, s);
                match memory::value_of(before, leaf) {
                    None => {
                        let store = StepV::Store { leaf, value: new };
                        let s1 = s.emit(store);
                        backward_laws::fold_grows(s1, leaves, before, i + 1, vs);
                        emit_keeps(a, s, less, store);
                        fold_keeps(a, s1, less, leaves, before, i + 1, vs);
                        results_stay(a, p.steps, q.steps);
                        kept_on(a, q.steps, p.steps, s1.steps, g, leaf, leaves, before, i);
                    },
                    Some(prev) => {
                        let add = StepV::Call {
                            slot: BwdSlot::GradAcc,
                            args: seq![Value::Tensor(prev), Value::Temp(new)],
                        };
                        let sum = s.next();
                        let store = StepV::Store { leaf, value: sum };
                        let s0 = s.emit(add);
                        let s1 = s0.emit(store);
                        let ws = vs.push(Value::Tensor(prev)).push(Value::Temp(new));
                        backward_laws::fold_grows(s1, leaves, before, i + 1, ws);
                        emit_keeps(a, s, less, add);
                        emit_keeps(a, s0, less, store);
                        let rs = a.results(p.steps);
                        assert(a.args(rs, seq![Value::Tensor(prev), Value::Temp(new)]) =~= seq![
                            Arg::Tensor((a.content)(prev)),
                            Arg::Tensor(rs[new as int]),
                        ]);
                        assert((a.sum)((a.content)(prev), g[leaf]) == a.results(
                            s0.steps,
                        )[sum as int]);
                        fold_keeps(a, s1, less, leaves, before, i + 1, ws);
                        assert(extends(s0.steps, q.steps));
                        results_stay(a, s0.steps, q.steps);
                        kept_on(a, q.steps, p.steps, s1.steps, g, leaf, leaves, before, i);
                    },
                }
            },
        }
    }
}

proof fn kept_on(
    a: Analysis,
    q: Seq<StepV>,
    p: Seq<StepV>,
    s: Seq<StepV>,
    g: Map<u64, int>,
    leaf: u64,
    leaves: Seq<u64>,
    before: Seq<(u64, u64)>,
    i: nat,
)
    requires
        i < leaves.len(),
        leaves[i as int] == leaf,
        g.contains_key(leaf),
        extends(p, s),
        extends(s, q),
        s.len() > p.len(),
        s.last() is Store,
        s.last()->leaf == leaf,
        s.last()->value < s.len() - 1,
        a.results(q)[s.last()->value as int] == a.kept(before, leaf, g[leaf]),
        forall|j: int| p.len() <= j < s.len() - 1 ==> !(#[trigger] s[j] is Store),
        a.keeps_only(q, s.len() as int, leaves, before, g.remove(leaf)),
        forall|k: int|
            i < k < leaves.len() && g.remove(leaf).contains_key(#[trigger] leaves[k]) ==> keeps(
                q,
                leaves[k],
            ),
    ensures
        extends(p, q),
        a.keeps_only(q, p.len() as int, leaves, before, g),
        forall|k: int|
            i <= k < leaves.len() && g.contains_key(#[trigger] leaves[k]) ==> keeps(q, leaves[k]),
{
    assert forall|j: int| 0 <= j < p.len() implies #[trigger] q[j] == p[j] by {
        assert(s[j] == p[j]);
    }
    assert(q[s.len() - 1] == s[s.len() - 1]);
    assert(keeps(q, leaf));
    assert(leaves.contains(leaf));
    assert forall|j: int| p.len() <= j < q.len() implies match #[trigger] q[j] {
        StepV::Store { leaf, value } => {
            &&& leaves.contains(leaf)
            &&& g.contains_key(leaf)
            &&& value < j
            &&& a.results(q)[value as int] == a.kept(before, leaf, g[leaf])
        },
        _ => true,
    } by {
        if j < s.len() {
            assert(q[j] == s[j]);
        }
    }
    assert forall|k: int| i <= k < leaves.len() && g.contains_key(
        #[trigger] leaves[k],
    ) implies keeps(q, leaves[k]) by {
        if leaves[k] != leaf {
            assert(g.remove(leaf).contains_key(leaves[k]));
        }
    }
}

/// Releases keep nothing.
proof fn releases_keep(p: PlanV, vs: Seq<Value>, i: nat)
    ensures
        extends(p.steps, p.release_values(vs, i).steps),
        forall|j: int|
            p.steps.len() <= j < p.release_values(vs, i).steps.len() ==> !(
            #[trigger] p.release_values(vs, i).steps[j] is Store),
    decreases vs.len() - i,
{
    if i < vs.len() {
        let q = p.emit(StepV::Release(vs[i as int]));
        releases_keep(q, vs, i + 1);
        let r = p.release_values(vs, i).steps;
        assert(r[p.steps.len() as int] == q.steps[p.steps.len() as int]);
        assert forall|j: int| 0 <= j < p.steps.len() implies #[trigger] r[j] == p.steps[j] by {
            assert(q.steps[j] == p.steps[j]);
        }
    }
}

proof fn grad_releases_keep(p: PlanV, i: nat)
    ensures
        extends(p.steps, p.release_grads(i).steps),
        forall|j: int|
            p.steps.len() <= j < p.release_grads(i).steps.len() ==> !(
            #[trigger] p.release_grads(i).steps[j] is Store),
    decreases p.grads.len() - i,
{
    if i < p.grads.len() {
        let q = p.emit(StepV::Release(Value::Temp(p.grads[i as int].1)));
        grad_releases_keep(q, i + 1);
        let r = p.release_grads(i).steps;
        assert(r[p.steps.len() as int] == q.steps[p.steps.len() as int]);
        assert forall|j: int| 0 <= j < p.steps.len() implies #[trigger] r[j] == p.steps[j] by {
            assert(q.steps[j] == p.steps[j]);
        }
    }
}

/// The walk keeps nothing.
proof fn visit_keeps(p: PlanV, mem: MemV, node: NodeV, dout: usize)
    requires
        p.visit(mem, node, dout) is Ok,
        forall|j: int| 0 <= j < p.steps.len() ==> !(#[trigger] p.steps[j] is Store),
    ensures
        ({
            let q = p.visit(mem, node, dout)->Ok_0;
            forall|j: int| 0 <= j < q.steps.len() ==> !(#[trigger] q.steps[j] is Store)
        }),
{
}

proof fn walk_keeps(p: PlanV, mem: MemV, nodes: Seq<NodeV>, n: nat)
    requires
        p.walk(mem, nodes, n) is Ok,
        forall|j: int| 0 <= j < p.steps.len() ==> !(#[trigger] p.steps[j] is Store),
    ensures
        ({
            let q = p.walk(mem, nodes, n)->Ok_0;
            forall|j: int| 0 <= j < q.steps.len() ==> !(#[trigger] q.steps[j] is Store)
        }),
    decreases n,
{
    if n > 0 {
        let node = nodes[n - 1];
        match backward::grad_at(p.grads, node.output, 0) {
            None => walk_keeps(p, mem, nodes, (n - 1) as nat),
            Some(k) => {
                visit_keeps(p, mem, node, p.grads[k].1);
                walk_keeps(
                    p.visit(mem, node, p.grads[k].1)->Ok_0,
                    mem,
                    nodes,
                    (n - 1) as nat,
                );
            },
        }
    }
}

/// A backward pass gives each leaf the gradient of the recorded operations: by
/// the chain rule, with the derivative of each operation by each of its inputs.
/// What is kept for a leaf is that gradient, added to the one kept before; it
/// is kept for every leaf that has one, and nothing else is kept.
pub proof fn leaves_get_their_gradients(a: Analysis, mem: MemV, nodes: Seq<NodeV>, loss: u64)
    requires
        a.fits(),
        backward::backward_plan(mem, nodes, loss) is Ok,
        backward::backward_plan(mem, nodes, loss)->Ok_0.len() <= usize::MAX,
    ensures
        ({
            let steps = backward::backward_plan(mem, nodes, loss)->Ok_0;
            let g = a.gradients(mem, nodes, loss);
            &&& a.keeps_only(steps, 0, mem.leaves, mem.leaf_grad, g)
            &&& forall|k: int|
                0 <= k < mem.leaves.len() && g.contains_key(#[trigger] mem.leaves[k]) ==> keeps(
                    steps,
                    mem.leaves[k],
                )
        }),
{
    let p0 = backward::seeded(loss);
    let s = p0.walk(mem, nodes, nodes.len())->Ok_0;
    let (q, vs) = s.fold_leaves(mem.leaves, mem.leaf_grad, 0, Seq::empty());
    let r = q.release_values(vs, 0);
    let steps = r.release_grads(0).steps;
    let g = a.gradients(mem, nodes, loss);
    backward_laws::grad_releases_grow(r, 0);
    backward_laws::releases_grow(q, vs, 0);
    backward_laws::fold_grows(s, mem.leaves, mem.leaf_grad, 0, Seq::empty());
    let g0 = map![loss => (a.ones)(loss)];
    assert(a.computes(p0, g0)) by {
        results_push(a, Seq::empty(), StepV::Ones { like: loss });
        assert(Seq::<StepV>::empty().push(StepV::Ones { like: loss }) =~= p0.steps);
        assert forall|h: u64| #[trigger] g0.contains_key(h) implies exists|i: int|
            0 <= i < p0.grads.len() && (#[trigger] p0.grads[i]).0 == h by {
            assert(p0.grads[0].0 == h);
        }
    }
    walk_differentiates(a, p0, mem, nodes, nodes.len(), g0);
    walk_keeps(p0, mem, nodes, nodes.len());
    fold_keeps(a, s, g, mem.leaves, mem.leaf_grad, 0, Seq::empty());
    releases_keep(q, vs, 0);
    grad_releases_keep(r, 0);
    assert(extends(q.steps, steps)) by {
        assert forall|i: int| 0 <= i < q.steps.len() implies #[trigger] steps[i] == q.steps[i] by {
            assert(r.steps[i] == q.steps[i]);
        }
    }
    results_stay(a, q.steps, steps);
    assert forall|j: int| 0 <= j < steps.len() implies match #[trigger] steps[j] {
        StepV::Store { leaf, value } => {
            &&& mem.leaves.contains(leaf)
            &&& g.contains_key(leaf)
            &&& value < j
            &&& a.results(steps)[value as int] == a.kept(mem.leaf_grad, leaf, g[leaf])
        },
        _ => true,
    } by {
        if j < s.steps.len() {
            assert(q.steps[j] == s.steps[j]);
        } else if j < q.steps.len() {
            assert(steps[j] == q.steps[j]);
        } else if j < r.steps.len() {
            assert(steps[j] == r.steps[j]);
        }
    }
    assert forall|k: int| 0 <= k < mem.leaves.len() && g.contains_key(
        #[trigger] mem.leaves[k],
    ) implies keeps(steps, mem.leaves[k]) by {
        keeps_on(q.steps, steps, mem.leaves[k]);
    }
}

/// What the tape is told of an operation is what its derivative is taken of: a
/// recorded operation has the inputs that were named as such, in order, and
/// its derivative by each of them is taken at what was recorded for it. The
/// gradient of a cross entropy goes to the logits and is taken from the
/// probabilities and the targets, that of a layer normalisation goes to its
/// operand and is taken from the result and the variance, and that of a row
/// lookup goes to the table.
pub proof fn recorded_operations_are_differentiated(
    a: Analysis,
    mem: MemV,
    g: Map<u64, int>,
    out: u64,
    x: u64,
    y: u64,
    z: u64,
    axis: i64,
    keepdim: i64,
)
    requires
        a.fits(),
        g.contains_key(out),
    ensures
        ({
            let t = |h: u64| Arg::Tensor((a.content)(h));
            let d = Arg::Tensor(g[out]);
            let by = |name: Seq<char>, args: Seq<Arg>| (a.call)(name, args);
            let axis_arg = Arg::Int(axis as int);
            let both = |op: OpTag| NodeV::binary(op, x, y, out);
            &&& both(OpTag::Matmul).complete()
            &&& a.through(mem, both(OpTag::Matmul), g) == a.plus(
                a.plus(g, x, by("__matmul_bwd_a"@, seq![t(x), t(y), d])),
                y,
                by("__matmul_bwd_b"@, seq![t(x), t(y), d]),
            )
            &&& a.through(mem, both(OpTag::Sub), g) == a.plus(
                a.plus(g, x, by("__sub_bwd_a"@, seq![d, t(x)])),
                y,
                by("__sub_bwd_b"@, seq![d, t(y)]),
            )
            &&& a.through(mem, both(OpTag::Div), g) == a.plus(
                a.plus(g, x, by("__div_bwd_a"@, seq![d, t(x), t(y)])),
                y,
                by("__div_bwd_b"@, seq![d, t(x), t(y)]),
            )
            &&& both(OpTag::Embedding).complete()
            &&& a.through(mem, both(OpTag::Embedding), g) == a.plus(
                g,
                x,
                by("__embedding_bwd"@, seq![t(x), t(y), d]),
            )
            &&& NodeV::unary(OpTag::Exp, x, out).complete()
            &&& a.through(mem, NodeV::unary(OpTag::Exp, x, out), g) == a.plus(
                g,
                x,
                (a.product)(g[out], (a.content)(out)),
            )
            &&& a.through(mem, NodeV::unary(OpTag::Log, x, out), g) == a.plus(
                g,
                x,
                (a.quotient)(g[out], (a.content)(x)),
            )
            &&& a.through(mem, NodeV::unary(OpTag::Relu, x, out), g) == a.plus(
                g,
                x,
                by("__relu_bwd"@, seq![t(x), d]),
            )
            &&& a.through(mem, NodeV::unary(OpTag::Sigmoid, x, out), g) == a.plus(
                g,
                x,
                by("__sigmoid_bwd"@, seq![t(out), d]),
            )
            &&& NodeV::reduction(OpTag::ReduceMeanAxis, x, out, axis, keepdim).complete()
            &&& a.through(
                mem,
                NodeV::reduction(OpTag::ReduceMeanAxis, x, out, axis, keepdim),
                g,
            ) == a.plus(g, x, by("__reduce_mean_axis_bwd"@, seq![t(x), d, axis_arg]))
            &&& a.through(
                mem,
                NodeV::reduction(OpTag::Softmax, x, out, axis, keepdim),
                g,
            ) == a.plus(g, x, by("__softmax_bwd"@, seq![t(out), d, axis_arg]))
            &&& NodeV::layernorm(OpTag::Layernorm, x, out, y, axis).complete()
            &&& a.through(mem, NodeV::layernorm(OpTag::Layernorm, x, out, y, axis), g) == a.plus(
                g,
                x,
                by("__layernorm_bwd"@, seq![t(out), t(y), d, axis_arg]),
            )
            &&& NodeV::cross_entropy(OpTag::CrossEntropy, x, out, y, z).complete()
            &&& a.through(
                mem,
                NodeV::cross_entropy(OpTag::CrossEntropy, x, out, y, z),
                g,
            ) == a.plus(g, x, by("__cross_entropy_bwd"@, seq![t(y), t(z), d]))
        }),
{
    assert(g.contains_key(out));
    taken_through(a, mem, NodeV::binary(OpTag::Matmul, x, y, out), g);
    taken_through(a, mem, NodeV::binary(OpTag::Sub, x, y, out), g);
    taken_through(a, mem, NodeV::binary(OpTag::Div, x, y, out), g);
    taken_through(a, mem, NodeV::binary(OpTag::Embedding, x, y, out), g);
    taken_through(a, mem, NodeV::unary(OpTag::Relu, x, out), g);
    taken_through(a, mem, NodeV::unary(OpTag::Sigmoid, x, out), g);
    taken_through(a, mem, NodeV::reduction(OpTag::ReduceMeanAxis, x, out, axis, keepdim), g);
    taken_through(a, mem, NodeV::reduction(OpTag::Softmax, x, out, axis, keepdim), g);
    taken_through(a, mem, NodeV::layernorm(OpTag::Layernorm, x, out, y, axis), g);
    taken_through(a, mem, NodeV::cross_entropy(OpTag::CrossEntropy, x, out, y, z), g);
}

/// Gradients behind an operation, by the calls for it.
proof fn taken_through(a: Analysis, mem: MemV, node: NodeV, g: Map<u64, int>)
    requires
        a.fits(),
        node.complete(),
        node.op.has_function(),
    ensures
        ({
            let rs = seq![g[node.output]];
            let calls = node.calls(0);
            let one = a.plus(
                g,
                calls[0].0,
                (a.call)(calls[0].1.fn_text(), a.args(rs, calls[0].2)),
            );
            a.through(mem, node, g) == if calls.len() == 2 {
                a.plus(one, calls[1].0, (a.call)(calls[1].1.fn_text(), a.args(rs, calls[1].2)))
            } else {
                one
            }
        }),
        node.op.has_two() ==> node.calls(0).len() == 2,
        called_with(a, node, g[node.output]),
{
    let rs = seq![g[node.output]];
    calls_differentiate(a, mem, node, 0, rs, 0);
    if node.op.has_two() {
        calls_differentiate(a, mem, node, 0, rs, 1);
    }
    let d = g[node.output];
    assert forall|k: int| 0 <= k < node.calls(0).len() implies #[trigger] a.args(
        rs,
        node.calls(0)[k].2,
    ) == bwd_args(node.op, k as nat, a.recorded(node), d) by {
        assert(a.args(rs, node.calls(0)[k].2) =~= bwd_args(
            node.op,
            k as nat,
            a.recorded(node),
            d,
        ));
    }
}

/// Whether the calls for an operation are made with what it was recorded with.
spec fn called_with(a: Analysis, node: NodeV, d: int) -> bool {
    forall|k: int|
        0 <= k < node.calls(0).len() ==> #[trigger] a.args(seq![d], node.calls(0)[k].2) == bwd_args(
            node.op,
            k as nat,
            a.recorded(node),
            d,
        )
}

} // verus!
