//! The backward pass. From what was recorded follows which backward functions
//! are called, in what order and on what, and when each intermediate gradient
//! is released; the pass is laid out as a list of steps.

use crate::runtime::layout::ShapeError;
use crate::runtime::memory;
use crate::runtime::memory::{MemV, Memory};
use crate::runtime::permute;
use crate::runtime::permute::{invert_perm, normalize_perm};
use crate::runtime::tags::{BwdSlot, OpTag};
use crate::runtime::tape::{NodeV, Tape, TapeNode};
use vstd::prelude::*;

verus! {

/// An argument: a tensor, the result of an earlier step, a number, or minus
/// one as a float.
#[derive(Clone, Copy, Debug, PartialEq, Eq, Structural)]
pub enum Value {
    Tensor(u64),
    Temp(usize),
    Int(i64),
    MinusOne,
}

/// A step of the backward pass.
#[derive(Debug)]
pub enum Step {
    /// Makes a tensor of ones in the shape of a tensor.
    Ones { like: u64 },
    /// Calls a backward function.
    Call { slot: BwdSlot, args: Vec<Value> },
    /// Makes a second tensor on the buffer of a result, in the shape of a
    /// tensor.
    Reshape { of: usize, like: u64 },
    /// Releases a tensor or a result.
    Release(Value),
    /// Keeps a result as the gradient of a leaf.
    Store { leaf: u64, value: usize },
}

/// Model of [`Step`].
#[verifier::ext_equal]
pub enum StepV {
    Ones { like: u64 },
    Call { slot: BwdSlot, args: Seq<Value> },
    Reshape { of: usize, like: u64 },
    Release(Value),
    Store { leaf: u64, value: usize },
}

impl View for Step {
    type V = StepV;

    open spec fn view(&self) -> StepV {
        match self {
            Step::Ones { like } => StepV::Ones { like: *like },
            Step::Call { slot, args } => StepV::Call { slot: *slot, args: args@ },
            Step::Reshape { of, like } => StepV::Reshape { of: *of, like: *like },
            Step::Release(v) => StepV::Release(*v),
            Step::Store { leaf, value } => StepV::Store { leaf: *leaf, value: *value },
        }
    }
}

/// Why a backward pass cannot be laid out.
#[derive(Clone, Copy, Debug, PartialEq, Eq, Structural)]
pub enum BackwardError {
    /// A node that lacks inputs or arguments of its operation.
    Malformed(OpTag),
    /// A node whose input no longer exists.
    Dead(u64),
    /// A permutation that does not fit its input.
    Permutation(ShapeError),
}

/// A pass under construction: the steps, and the gradients so far, each the
/// result of a step.
#[derive(Debug)]
pub struct Plan {
    pub steps: Vec<Step>,
    pub grads: Vec<(u64, usize)>,
}

/// Model of [`Plan`].
#[verifier::ext_equal]
pub struct PlanV {
    pub steps: Seq<StepV>,
    pub grads: Seq<(u64, usize)>,
}

pub open spec fn step_views(steps: Seq<Step>) -> Seq<StepV> {
    steps.map_values(|s: Step| s@)
}

impl View for Plan {
    type V = PlanV;

    open spec fn view(&self) -> PlanV {
        PlanV { steps: step_views(self.steps@), grads: self.grads@ }
    }
}

/// Position of a tensor's gradient, from `i` on.
pub open spec fn grad_at(g: Seq<(u64, usize)>, h: u64, i: nat) -> Option<int>
    decreases g.len() - i,
{
    if i >= g.len() {
        None
    } else if g[i as int].0 == h {
        Some(i as int)
    } else {
        grad_at(g, h, i + 1)
    }
}

pub proof fn grad_at_bounds(g: Seq<(u64, usize)>, h: u64, i: nat)
    ensures
        match grad_at(g, h, i) {
            Some(p) => i <= p < g.len() && g[p].0 == h,
            None => forall|j: int| i <= j < g.len() ==> (#[trigger] g[j]).0 != h,
        },
    decreases g.len() - i,
{
    if i < g.len() && g[i as int].0 != h {
        grad_at_bounds(g, h, i + 1);
    }
}

impl NodeV {
    /// Whether a node has the inputs and arguments of its operation.
    pub open spec fn complete(self) -> bool {
        match self.op {
            OpTag::Matmul | OpTag::Add | OpTag::Sub | OpTag::Mul | OpTag::Div | OpTag::Embedding => self.saved.len() >= 2,
            OpTag::Sigmoid | OpTag::Relu | OpTag::Tanh | OpTag::Exp | OpTag::Log | OpTag::Sqrt | OpTag::Abs | OpTag::Sum | OpTag::Neg | OpTag::Gelu => self.saved.len() >= 1,
            OpTag::ReduceSumAxis | OpTag::ReduceMeanAxis | OpTag::ReduceMaxAxis | OpTag::ReduceVarAxis | OpTag::Softmax => self.saved.len() >= 1 && self.meta.len() >= 1,
            OpTag::Layernorm => self.saved.len() >= 2 && self.meta.len() >= 1,
            OpTag::CrossEntropy => self.saved.len() >= 3,
            OpTag::Transpose | OpTag::Reshape => self.saved.len() >= 1,
        }
    }

    /// The calls that give the gradients of the inputs: for each input a slot
    /// and its arguments. None for reorderings and reshapes, which need none.
    pub open spec fn calls(self, dout: usize) -> Seq<(u64, BwdSlot, Seq<Value>)> {
        match self.op {
            OpTag::Matmul => seq![
                (
                    self.saved[0],
                    BwdSlot::MatmulBwdA,
                    seq![Value::Tensor(self.saved[0]), Value::Tensor(self.saved[1]), Value::Temp(dout)],
                ),
                (
                    self.saved[1],
                    BwdSlot::MatmulBwdB,
                    seq![Value::Tensor(self.saved[0]), Value::Tensor(self.saved[1]), Value::Temp(dout)],
                ),
            ],
            OpTag::Add => seq![
                (
                    self.saved[0],
                    BwdSlot::AddBwdA,
                    seq![Value::Temp(dout), Value::Tensor(self.saved[0])],
                ),
                (
                    self.saved[1],
                    BwdSlot::AddBwdB,
                    seq![Value::Temp(dout), Value::Tensor(self.saved[1])],
                ),
            ],
            OpTag::Sub => seq![
                (
                    self.saved[0],
                    BwdSlot::SubBwdA,
                    seq![Value::Temp(dout), Value::Tensor(self.saved[0])],
                ),
                (
                    self.saved[1],
                    BwdSlot::SubBwdB,
                    seq![Value::Temp(dout), Value::Tensor(self.saved[1])],
                ),
            ],
            OpTag::Mul => seq![
                (
                    self.saved[0],
                    BwdSlot::MulBwdA,
                    seq![Value::Temp(dout), Value::Tensor(self.saved[0]), Value::Tensor(self.saved[1])],
                ),
                (
                    self.saved[1],
                    BwdSlot::MulBwdB,
                    seq![Value::Temp(dout), Value::Tensor(self.saved[0]), Value::Tensor(self.saved[1])],
                ),
            ],
            OpTag::Div => seq![
                (
                    self.saved[0],
                    BwdSlot::DivBwdA,
                    seq![Value::Temp(dout), Value::Tensor(self.saved[0]), Value::Tensor(self.saved[1])],
                ),
                (
                    self.saved[1],
                    BwdSlot::DivBwdB,
                    seq![Value::Temp(dout), Value::Tensor(self.saved[0]), Value::Tensor(self.saved[1])],
                ),
            ],
            OpTag::Sigmoid => seq![
                (
                    self.saved[0],
                    BwdSlot::SigmoidBwd,
                    seq![Value::Tensor(self.output), Value::Temp(dout)],
                ),
            ],
            OpTag::Relu => seq![
                (
                    self.saved[0],
                    BwdSlot::ReluBwd,
                    seq![Value::Tensor(self.saved[0]), Value::Temp(dout)],
                ),
            ],
            OpTag::Tanh => seq![
                (
                    self.saved[0],
                    BwdSlot::TanhBwd,
                    seq![Value::Tensor(self.output), Value::Temp(dout)],
                ),
            ],
            OpTag::Exp => seq![
                (
                    self.saved[0],
                    BwdSlot::ExpBwd,
                    seq![Value::Temp(dout), Value::Tensor(self.output)],
                ),
            ],
            OpTag::Log => seq![
                (
                    self.saved[0],
                    BwdSlot::LogBwd,
                    seq![Value::Temp(dout), Value::Tensor(self.saved[0])],
                ),
            ],
            OpTag::Sqrt => seq![
                (
                    self.saved[0],
                    BwdSlot::SqrtBwd,
                    seq![Value::Tensor(self.output), Value::Temp(dout)],
                ),
            ],
            OpTag::Abs => seq![
                (
                    self.saved[0],
                    BwdSlot::AbsBwd,
                    seq![Value::Tensor(self.saved[0]), Value::Temp(dout)],
                ),
            ],
            OpTag::Sum => seq![
                (
                    self.saved[0],
                    BwdSlot::SumBwd,
                    seq![Value::Tensor(self.saved[0]), Value::Temp(dout)],
                ),
            ],
            OpTag::Neg => seq![
                (
                    self.saved[0],
                    BwdSlot::NegBwd,
                    seq![Value::Temp(dout), Value::MinusOne],
                ),
            ],
            OpTag::ReduceSumAxis => seq![
                (
                    self.saved[0],
                    BwdSlot::ReduceSumAxisBwd,
                    seq![Value::Tensor(self.saved[0]), Value::Temp(dout), Value::Int(self.meta[0])],
                ),
            ],
            OpTag::ReduceMeanAxis => seq![
                (
                    self.saved[0],
                    BwdSlot::ReduceMeanAxisBwd,
                    seq![Value::Tensor(self.saved[0]), Value::Temp(dout), Value::Int(self.meta[0])],
                ),
            ],
            OpTag::ReduceMaxAxis => seq![
                (
                    self.saved[0],
                    BwdSlot::ReduceMaxAxisBwd,
                    seq![Value::Tensor(self.saved[0]), Value::Tensor(self.output), Value::Temp(dout), Value::Int(self.meta[0])],
                ),
            ],
            OpTag::ReduceVarAxis => seq![
                (
                    self.saved[0],
                    BwdSlot::ReduceVarAxisBwd,
                    seq![Value::Tensor(self.saved[0]), Value::Temp(dout), Value::Int(self.meta[0])],
                ),
            ],
            OpTag::Softmax => seq![
                (
                    self.saved[0],
                    BwdSlot::SoftmaxBwd,
                    seq![Value::Tensor(self.output), Value::Temp(dout), Value::Int(self.meta[0])],
                ),
            ],
            OpTag::Layernorm => seq![
                (
                    self.saved[0],
                    BwdSlot::LayernormBwd,
                    seq![Value::Tensor(self.output), Value::Tensor(self.saved[1]), Value::Temp(dout), Value::Int(self.meta[0])],
                ),
            ],
            OpTag::Gelu => seq![
                (
                    self.saved[0],
                    BwdSlot::GeluBwd,
                    seq![Value::Tensor(self.saved[0]), Value::Temp(dout)],
                ),
            ],
            OpTag::CrossEntropy => seq![
                (
                    self.saved[0],
                    BwdSlot::CrossEntropyBwd,
                    seq![Value::Tensor(self.saved[1]), Value::Tensor(self.saved[2]), Value::Temp(dout)],
                ),
            ],
            OpTag::Embedding => seq![
                (
                    self.saved[0],
                    BwdSlot::EmbeddingBwd,
                    seq![Value::Tensor(self.saved[0]), Value::Tensor(self.saved[1]), Value::Temp(dout)],
                ),
            ],
            OpTag::Transpose | OpTag::Reshape => Seq::empty(),
        }
    }
}

/// Arguments of a reordering: the gradient and eight dimension numbers.
pub open spec fn reorder_args(dout: usize, inv: Seq<usize>) -> Seq<Value> {
    Seq::new(
        9,
        |i: int|
            if i == 0 {
                Value::Temp(dout)
            } else if i - 1 < inv.len() {
                Value::Int(inv[i - 1] as i64)
            } else {
                Value::Int(0)
            },
    )
}

impl PlanV {
    pub open spec fn emit(self, s: StepV) -> PlanV {
        PlanV { steps: self.steps.push(s), ..self }
    }

    /// Number of the step that comes next, which names its result.
    pub open spec fn next(self) -> usize {
        self.steps.len() as usize
    }

    /// Adds a gradient to that of a tensor.
    pub open spec fn accumulate(self, h: u64, t: usize) -> PlanV {
        match grad_at(self.grads, h, 0) {
            None => PlanV { grads: self.grads.push((h, t)), ..self },
            Some(p) => {
                let prev = self.grads[p].1;
                let sum = self.next();
                let s = self.emit(
                    StepV::Call {
                        slot: BwdSlot::GradAcc,
                        args: seq![Value::Temp(prev), Value::Temp(t)],
                    },
                ).emit(StepV::Release(Value::Temp(prev))).emit(StepV::Release(Value::Temp(t)));
                PlanV { grads: self.grads.remove(p).push((h, sum)), ..s }
            },
        }
    }

    /// Calls each backward function, and then adds each result.
    pub open spec fn apply(self, calls: Seq<(u64, BwdSlot, Seq<Value>)>) -> PlanV {
        if calls.len() == 2 {
            let t0 = self.next();
            let s0 = self.emit(StepV::Call { slot: calls[0].1, args: calls[0].2 });
            let t1 = s0.next();
            let s1 = s0.emit(StepV::Call { slot: calls[1].1, args: calls[1].2 });
            s1.accumulate(calls[0].0, t0).accumulate(calls[1].0, t1)
        } else {
            let t0 = self.next();
            self.emit(StepV::Call { slot: calls[0].1, args: calls[0].2 }).accumulate(
                calls[0].0,
                t0,
            )
        }
    }

    /// The gradients of the inputs of a node, from that of its output.
    pub open spec fn visit(self, mem: MemV, node: NodeV, dout: usize) -> Result<
        PlanV,
        BackwardError,
    > {
        if !node.complete() {
            Err(BackwardError::Malformed(node.op))
        } else {
            match node.op {
                OpTag::Transpose => {
                    let x = node.saved[0];
                    if !mem.live(x) {
                        Err(BackwardError::Dead(x))
                    } else {
                        let rank = mem.tensors[x].shape.len();
                        match permute::perm_of(node.dims, rank) {
                            Err(e) => Err(BackwardError::Permutation(e)),
                            Ok(p) => if rank > 8 {
                                Err(BackwardError::Malformed(OpTag::Transpose))
                            } else {
                                let t = self.next();
                                Ok(
                                    self.emit(
                                        StepV::Call {
                                            slot: BwdSlot::PermuteNdFwd,
                                            args: reorder_args(dout, permute::inverse(p)),
                                        },
                                    ).accumulate(x, t),
                                )
                            },
                        }
                    }
                },
                OpTag::Reshape => {
                    let x = node.saved[0];
                    let t = self.next();
                    Ok(self.emit(StepV::Reshape { of: dout, like: x }).accumulate(x, t))
                },
                _ => Ok(self.apply(node.calls(dout))),
            }
        }
    }

    /// Visits the first `n` nodes, last first; a node whose output has no
    /// gradient is left out.
    pub open spec fn walk(self, mem: MemV, nodes: Seq<NodeV>, n: nat) -> Result<
        PlanV,
        BackwardError,
    >
        decreases n,
    {
        if n == 0 {
            Ok(self)
        } else {
            let node = nodes[n - 1];
            match grad_at(self.grads, node.output, 0) {
                None => self.walk(mem, nodes, (n - 1) as nat),
                Some(p) => match self.visit(mem, node, self.grads[p].1) {
                    Err(e) => Err(e),
                    Ok(s) => s.walk(mem, nodes, (n - 1) as nat),
                },
            }
        }
    }

    /// Moves the gradients of the leaves, from `i` on, into the registry,
    /// adding those that it holds already. Returns also what to release.
    pub open spec fn fold_leaves(
        self,
        leaves: Seq<u64>,
        kept: Seq<(u64, u64)>,
        i: nat,
        old_ones: Seq<Value>,
    ) -> (PlanV, Seq<Value>)
        decreases leaves.len() - i,
    {
        if i >= leaves.len() {
            (self, old_ones)
        } else {
            let leaf = leaves[i as int];
            match grad_at(self.grads, leaf, 0) {
                None => self.fold_leaves(leaves, kept, i + 1, old_ones),
                Some(p) => {
                    let new = self.grads[p].1;
                    let s = PlanV { grads: self.grads.remove(p), ..self };
                    match memory::value_of(kept, leaf) {
                        None => s.emit(StepV::Store { leaf, value: new }).fold_leaves(
                            leaves,
                            kept,
                            i + 1,
                            old_ones,
                        ),
                        Some(prev) => {
                            let sum = s.next();
                            s.emit(
                                StepV::Call {
                                    slot: BwdSlot::GradAcc,
                                    args: seq![Value::Tensor(prev), Value::Temp(new)],
                                },
                            ).emit(StepV::Store { leaf, value: sum }).fold_leaves(
                                leaves,
                                kept,
                                i + 1,
                                old_ones.push(Value::Tensor(prev)).push(Value::Temp(new)),
                            )
                        },
                    }
                },
            }
        }
    }

    /// Releases the values from position `i` on.
    pub open spec fn release_values(self, vs: Seq<Value>, i: nat) -> PlanV
        decreases vs.len() - i,
    {
        if i >= vs.len() {
            self
        } else {
            self.emit(StepV::Release(vs[i as int])).release_values(vs, i + 1)
        }
    }

    /// Releases the gradients from position `i` on.
    pub open spec fn release_grads(self, i: nat) -> PlanV
        decreases self.grads.len() - i,
    {
        if i >= self.grads.len() {
            self
        } else {
            self.emit(StepV::Release(Value::Temp(self.grads[i as int].1))).release_grads(i + 1)
        }
    }
}

/// The plan before the first node: the gradient of the loss is ones.
pub open spec fn seeded(loss: u64) -> PlanV {
    PlanV { steps: seq![StepV::Ones { like: loss }], grads: seq![(loss, 0usize)] }
}

/// The steps of a backward pass from a loss.
pub open spec fn backward_plan(mem: MemV, nodes: Seq<NodeV>, loss: u64) -> Result<
    Seq<StepV>,
    BackwardError,
> {
    match seeded(loss).walk(mem, nodes, nodes.len()) {
        Err(e) => Err(e),
        Ok(s) => {
            let (s2, old_ones) = s.fold_leaves(mem.leaves, mem.leaf_grad, 0, Seq::empty());
            Ok(s2.release_values(old_ones, 0).release_grads(0).steps)
        },
    }
}

impl Plan {
    fn emit(&mut self, s: Step)
        ensures
            final(self)@ == old(self)@.emit(s@),
    {
        let ghost before = self.steps@;
        self.steps.push(s);
        assert(step_views(before.push(s)) =~= step_views(before).push(s@));
    }

    fn find(&self, h: u64) -> (r: Option<usize>)
        ensures
            match r {
                Some(p) => grad_at(self@.grads, h, 0) == Some(p as int) && p < self.grads.len(),
                None => grad_at(self@.grads, h, 0) is None,
            },
    {
        let mut i: usize = 0;
        while i < self.grads.len()
            invariant
                i <= self.grads.len(),
                grad_at(self@.grads, h, 0) == grad_at(self@.grads, h, i as nat),
            decreases self.grads.len() - i,
        {
            if self.grads[i].0 == h {
                return Some(i);
            }
            i = i + 1;
        }
        None
    }

    fn call2(&mut self, slot: BwdSlot, a: Value, b: Value) -> (r: usize)
        ensures
            final(self)@ == old(self)@.emit(StepV::Call { slot, args: seq![a, b] }),
            r == old(self)@.next(),
    {
        let t: usize = self.steps.len();
        let mut args: Vec<Value> = Vec::new();
        args.push(a);
        args.push(b);
        assert(args@ =~= seq![a, b]);
        self.emit(Step::Call { slot, args });
        t
    }

    fn call3(&mut self, slot: BwdSlot, a: Value, b: Value, c: Value) -> (r: usize)
        ensures
            final(self)@ == old(self)@.emit(StepV::Call { slot, args: seq![a, b, c] }),
            r == old(self)@.next(),
    {
        let t: usize = self.steps.len();
        let mut args: Vec<Value> = Vec::new();
        args.push(a);
        args.push(b);
        args.push(c);
        assert(args@ =~= seq![a, b, c]);
        self.emit(Step::Call { slot, args });
        t
    }

    fn call4(&mut self, slot: BwdSlot, a: Value, b: Value, c: Value, d: Value) -> (r: usize)
        ensures
            final(self)@ == old(self)@.emit(StepV::Call { slot, args: seq![a, b, c, d] }),
            r == old(self)@.next(),
    {
        let t: usize = self.steps.len();
        let mut args: Vec<Value> = Vec::new();
        args.push(a);
        args.push(b);
        args.push(c);
        args.push(d);
        assert(args@ =~= seq![a, b, c, d]);
        self.emit(Step::Call { slot, args });
        t
    }

    /// Adds a gradient to that of a tensor.
    fn accumulate_grad(&mut self, h: u64, t: usize)
        ensures
            final(self)@ == old(self)@.accumulate(h, t),
    {
        match self.find(h) {
            None => {
                self.grads.push((h, t));
                assert(self@ =~= old(self)@.accumulate(h, t));
            },
            Some(p) => {
                let prev: usize = self.grads[p].1;
                let sum: usize = self.call2(
                    BwdSlot::GradAcc,
                    Value::Temp(prev),
                    Value::Temp(t),
                );
                self.emit(Step::Release(Value::Temp(prev)));
                self.emit(Step::Release(Value::Temp(t)));
                self.grads.remove(p);
                self.grads.push((h, sum));
                assert(self@ =~= old(self)@.accumulate(h, t));
            },
        }
    }

    fn visit_transpose(&mut self, mem: &Memory, node: &TapeNode, dout: usize) -> (r: Result<
        (),
        BackwardError,
    >)
        requires
            node.op == OpTag::Transpose,
            node@.complete(),
        ensures
            match r {
                Ok(_) => old(self)@.visit(mem@, node@, dout) == Ok::<PlanV, BackwardError>(
                    final(self)@,
                ),
                Err(e) => old(self)@.visit(mem@, node@, dout) == Err::<PlanV, BackwardError>(e),
            },
    {
        let x: u64 = node.saved[0];
        if !mem.is_live(x) {
            return Err(BackwardError::Dead(x));
        }
        let rank: usize = mem.tensor(x).shape.len();
        let perm = match normalize_perm(&node.dims, rank) {
            Ok(p) => p,
            Err(e) => {
                return Err(BackwardError::Permutation(e));
            },
        };
        if rank > 8 {
            return Err(BackwardError::Malformed(OpTag::Transpose));
        }
        let inv = invert_perm(&perm);
        proof {
            permute::inverse_undoes(perm@, rank as nat);
        }
        let mut args: Vec<Value> = Vec::new();
        args.push(Value::Temp(dout));
        let mut i: usize = 0;
        while i < 8
            invariant
                i <= 8,
                inv.len() <= 8,
                permute::is_perm(inv@, inv@.len()),
                args@ =~= reorder_args(dout, inv@).take(i as int + 1),
            decreases 8 - i,
        {
            if i < inv.len() {
                assert(inv@[i as int] < inv@.len());
                args.push(Value::Int(inv[i] as i64));
            } else {
                args.push(Value::Int(0));
            }
            i = i + 1;
        }
        assert(args@ =~= reorder_args(dout, inv@));
        let t: usize = self.steps.len();
        self.emit(Step::Call { slot: BwdSlot::PermuteNdFwd, args });
        self.accumulate_grad(x, t);
        Ok(())
    }

    /// The gradients of the inputs of a node, from that of its output.
    #[verifier::rlimit(60)]
    #[verifier::spinoff_prover]
    fn visit(&mut self, mem: &Memory, node: &TapeNode, dout: usize) -> (r: Result<
        (),
        BackwardError,
    >)
        ensures
            match r {
                Ok(_) => old(self)@.visit(mem@, node@, dout) == Ok::<PlanV, BackwardError>(
                    final(self)@,
                ),
                Err(e) => old(self)@.visit(mem@, node@, dout) == Err::<PlanV, BackwardError>(e),
            },
    {
        let saved: usize = node.saved.len();
        let meta: usize = node.meta.len();
        let complete = match node.op {
            OpTag::Matmul | OpTag::Add | OpTag::Sub | OpTag::Mul | OpTag::Div | OpTag::Embedding => saved >= 2,
            OpTag::Sigmoid | OpTag::Relu | OpTag::Tanh | OpTag::Exp | OpTag::Log | OpTag::Sqrt | OpTag::Abs | OpTag::Sum | OpTag::Neg | OpTag::Gelu => saved >= 1,
            OpTag::ReduceSumAxis | OpTag::ReduceMeanAxis | OpTag::ReduceMaxAxis | OpTag::ReduceVarAxis | OpTag::Softmax => saved >= 1 && meta >= 1,
            OpTag::Layernorm => saved >= 2 && meta >= 1,
            OpTag::CrossEntropy => saved >= 3,
            OpTag::Transpose | OpTag::Reshape => saved >= 1,
        };
        if !complete {
            return Err(BackwardError::Malformed(node.op));
        }
        match node.op {
            OpTag::Matmul => {
                let t0: usize = self.call3(
                    BwdSlot::MatmulBwdA,
                    Value::Tensor(node.saved[0]),
                    Value::Tensor(node.saved[1]),
                    Value::Temp(dout),
                );
                let t1: usize = self.call3(
                    BwdSlot::MatmulBwdB,
                    Value::Tensor(node.saved[0]),
                    Value::Tensor(node.saved[1]),
                    Value::Temp(dout),
                );
                self.accumulate_grad(node.saved[0], t0);
                self.accumulate_grad(node.saved[1], t1);
            },
            OpTag::Add => {
                let t0: usize = self.call2(
                    BwdSlot::AddBwdA,
                    Value::Temp(dout),
                    Value::Tensor(node.saved[0]),
                );
                let t1: usize = self.call2(
                    BwdSlot::AddBwdB,
                    Value::Temp(dout),
                    Value::Tensor(node.saved[1]),
                );
                self.accumulate_grad(node.saved[0], t0);
                self.accumulate_grad(node.saved[1], t1);
            },
            OpTag::Sub => {
                let t0: usize = self.call2(
                    BwdSlot::SubBwdA,
                    Value::Temp(dout),
                    Value::Tensor(node.saved[0]),
                );
                let t1: usize = self.call2(
                    BwdSlot::SubBwdB,
                    Value::Temp(dout),
                    Value::Tensor(node.saved[1]),
                );
                self.accumulate_grad(node.saved[0], t0);
                self.accumulate_grad(node.saved[1], t1);
            },
            OpTag::Mul => {
                let t0: usize = self.call3(
                    BwdSlot::MulBwdA,
                    Value::Temp(dout),
                    Value::Tensor(node.saved[0]),
                    Value::Tensor(node.saved[1]),
                );
                let t1: usize = self.call3(
                    BwdSlot::MulBwdB,
                    Value::Temp(dout),
                    Value::Tensor(node.saved[0]),
                    Value::Tensor(node.saved[1]),
                );
                self.accumulate_grad(node.saved[0], t0);
                self.accumulate_grad(node.saved[1], t1);
            },
            OpTag::Div => {
                let t0: usize = self.call3(
                    BwdSlot::DivBwdA,
                    Value::Temp(dout),
                    Value::Tensor(node.saved[0]),
                    Value::Tensor(node.saved[1]),
                );
                let t1: usize = self.call3(
                    BwdSlot::DivBwdB,
                    Value::Temp(dout),
                    Value::Tensor(node.saved[0]),
                    Value::Tensor(node.saved[1]),
                );
                self.accumulate_grad(node.saved[0], t0);
                self.accumulate_grad(node.saved[1], t1);
            },
            OpTag::Sigmoid => {
                let t: usize = self.call2(
                    BwdSlot::SigmoidBwd,
                    Value::Tensor(node.output),
                    Value::Temp(dout),
                );
                self.accumulate_grad(node.saved[0], t);
            },
            OpTag::Relu => {
                let t: usize = self.call2(
                    BwdSlot::ReluBwd,
                    Value::Tensor(node.saved[0]),
                    Value::Temp(dout),
                );
                self.accumulate_grad(node.saved[0], t);
            },
            OpTag::Tanh => {
                let t: usize = self.call2(
                    BwdSlot::TanhBwd,
                    Value::Tensor(node.output),
                    Value::Temp(dout),
                );
                self.accumulate_grad(node.saved[0], t);
            },
            OpTag::Exp => {
                let t: usize = self.call2(
                    BwdSlot::ExpBwd,
                    Value::Temp(dout),
                    Value::Tensor(node.output),
                );
                self.accumulate_grad(node.saved[0], t);
            },
            OpTag::Log => {
                let t: usize = self.call2(
                    BwdSlot::LogBwd,
                    Value::Temp(dout),
                    Value::Tensor(node.saved[0]),
                );
                self.accumulate_grad(node.saved[0], t);
            },
            OpTag::Sqrt => {
                let t: usize = self.call2(
                    BwdSlot::SqrtBwd,
                    Value::Tensor(node.output),
                    Value::Temp(dout),
                );
                self.accumulate_grad(node.saved[0], t);
            },
            OpTag::Abs => {
                let t: usize = self.call2(
                    BwdSlot::AbsBwd,
                    Value::Tensor(node.saved[0]),
                    Value::Temp(dout),
                );
                self.accumulate_grad(node.saved[0], t);
            },
            OpTag::Sum => {
                let t: usize = self.call2(
                    BwdSlot::SumBwd,
                    Value::Tensor(node.saved[0]),
                    Value::Temp(dout),
                );
                self.accumulate_grad(node.saved[0], t);
            },
            OpTag::Neg => {
                let t: usize = self.call2(
                    BwdSlot::NegBwd,
                    Value::Temp(dout),
                    Value::MinusOne,
                );
                self.accumulate_grad(node.saved[0], t);
            },
            OpTag::ReduceSumAxis => {
                let t: usize = self.call3(
                    BwdSlot::ReduceSumAxisBwd,
                    Value::Tensor(node.saved[0]),
                    Value::Temp(dout),
                    Value::Int(node.meta[0]),
                );
                self.accumulate_grad(node.saved[0], t);
            },
            OpTag::ReduceMeanAxis => {
                let t: usize = self.call3(
                    BwdSlot::ReduceMeanAxisBwd,
                    Value::Tensor(node.saved[0]),
                    Value::Temp(dout),
                    Value::Int(node.meta[0]),
                );
                self.accumulate_grad(node.saved[0], t);
            },
            OpTag::ReduceMaxAxis => {
                let t: usize = self.call4(
                    BwdSlot::ReduceMaxAxisBwd,
                    Value::Tensor(node.saved[0]),
                    Value::Tensor(node.output),
                    Value::Temp(dout),
                    Value::Int(node.meta[0]),
                );
                self.accumulate_grad(node.saved[0], t);
            },
            OpTag::ReduceVarAxis => {
                let t: usize = self.call3(
                    BwdSlot::ReduceVarAxisBwd,
                    Value::Tensor(node.saved[0]),
                    Value::Temp(dout),
                    Value::Int(node.meta[0]),
                );
                self.accumulate_grad(node.saved[0], t);
            },
            OpTag::Softmax => {
                let t: usize = self.call3(
                    BwdSlot::SoftmaxBwd,
                    Value::Tensor(node.output),
                    Value::Temp(dout),
                    Value::Int(node.meta[0]),
                );
                self.accumulate_grad(node.saved[0], t);
            },
            OpTag::Layernorm => {
                let t: usize = self.call4(
                    BwdSlot::LayernormBwd,
                    Value::Tensor(node.output),
                    Value::Tensor(node.saved[1]),
                    Value::Temp(dout),
                    Value::Int(node.meta[0]),
                );
                self.accumulate_grad(node.saved[0], t);
            },
            OpTag::Gelu => {
                let t: usize = self.call2(
                    BwdSlot::GeluBwd,
                    Value::Tensor(node.saved[0]),
                    Value::Temp(dout),
                );
                self.accumulate_grad(node.saved[0], t);
            },
            OpTag::CrossEntropy => {
                let t: usize = self.call3(
                    BwdSlot::CrossEntropyBwd,
                    Value::Tensor(node.saved[1]),
                    Value::Tensor(node.saved[2]),
                    Value::Temp(dout),
                );
                self.accumulate_grad(node.saved[0], t);
            },
            OpTag::Embedding => {
                let t: usize = self.call3(
                    BwdSlot::EmbeddingBwd,
                    Value::Tensor(node.saved[0]),
                    Value::Tensor(node.saved[1]),
                    Value::Temp(dout),
                );
                self.accumulate_grad(node.saved[0], t);
            },
            OpTag::Transpose => {
                return self.visit_transpose(mem, node, dout);
            },
            OpTag::Reshape => {
                let t: usize = self.steps.len();
                self.emit(Step::Reshape { of: dout, like: node.saved[0] });
                self.accumulate_grad(node.saved[0], t);
            },
        }
        Ok(())
    }

    fn walk(&mut self, mem: &Memory, nodes: &Vec<TapeNode>) -> (r: Result<(), BackwardError>)
        ensures
            match r {
                Ok(_) => old(self)@.walk(
                    mem@,
                    crate::runtime::tape::node_views(nodes@),
                    nodes@.len(),
                ) == Ok::<PlanV, BackwardError>(final(self)@),
                Err(e) => old(self)@.walk(
                    mem@,
                    crate::runtime::tape::node_views(nodes@),
                    nodes@.len(),
                ) == Err::<PlanV, BackwardError>(e),
            },
    {
        let ghost vs = crate::runtime::tape::node_views(nodes@);
        let mut n: usize = nodes.len();
        while n > 0
            invariant
                n <= nodes.len(),
                vs == crate::runtime::tape::node_views(nodes@),
                old(self)@.walk(mem@, vs, nodes@.len()) == self@.walk(mem@, vs, n as nat),
            decreases n,
        {
            let node = &nodes[n - 1];
            assert(vs[n - 1] == node@);
            match self.find(node.output) {
                None => {},
                Some(p) => {
                    let dout: usize = self.grads[p].1;
                    match self.visit(mem, node, dout) {
                        Ok(_) => {},
                        Err(e) => {
                            return Err(e);
                        },
                    }
                },
            }
            n = n - 1;
        }
        Ok(())
    }

    fn fold_leaves(&mut self, mem: &Memory) -> (r: Vec<Value>)
        ensures
            (final(self)@, r@) == old(self)@.fold_leaves(
                mem@.leaves,
                mem@.leaf_grad,
                0,
                Seq::empty(),
            ),
    {
        let mut old_ones: Vec<Value> = Vec::new();
        let mut i: usize = 0;
        assert(old_ones@ =~= Seq::<Value>::empty());
        while i < mem.leaves.len()
            invariant
                i <= mem.leaves.len(),
                old(self)@.fold_leaves(mem@.leaves, mem@.leaf_grad, 0, Seq::empty())
                    == self@.fold_leaves(mem@.leaves, mem@.leaf_grad, i as nat, old_ones@),
            decreases mem.leaves.len() - i,
        {
            let leaf: u64 = mem.leaves[i];
            match self.find(leaf) {
                None => {},
                Some(p) => {
                    let ghost before = self@;
                    let new: usize = self.grads[p].1;
                    self.grads.remove(p);
                    assert(self@ =~= (PlanV { grads: before.grads.remove(p as int), ..before }));
                    match crate::runtime::memory_ops::find_key(&mem.leaf_grad, leaf) {
                        None => {
                            self.emit(Step::Store { leaf, value: new });
                        },
                        Some(q) => {
                            let prev: u64 = mem.leaf_grad[q].1;
                            let sum: usize = self.call2(
                                BwdSlot::GradAcc,
                                Value::Tensor(prev),
                                Value::Temp(new),
                            );
                            self.emit(Step::Store { leaf, value: sum });
                            old_ones.push(Value::Tensor(prev));
                            old_ones.push(Value::Temp(new));
                        },
                    }
                },
            }
            i = i + 1;
        }
        old_ones
    }

    fn release_values(&mut self, vs: &Vec<Value>)
        ensures
            final(self)@ == old(self)@.release_values(vs@, 0),
    {
        let mut i: usize = 0;
        while i < vs.len()
            invariant
                i <= vs.len(),
                old(self)@.release_values(vs@, 0) == self@.release_values(vs@, i as nat),
            decreases vs.len() - i,
        {
            self.emit(Step::Release(vs[i]));
            i = i + 1;
        }
    }

    fn release_grads(&mut self)
        ensures
            final(self)@ == old(self)@.release_grads(0),
    {
        let mut i: usize = 0;
        while i < self.grads.len()
            invariant
                i <= self.grads.len(),
                old(self)@.release_grads(0) == self@.release_grads(i as nat),
            decreases self.grads.len() - i,
        {
            let t: usize = self.grads[i].1;
            self.emit(Step::Release(Value::Temp(t)));
            i = i + 1;
        }
    }
}

impl Tape {
    /// Lays out the backward pass from a loss: the recorded operations in
    /// reverse, gradients added up per tensor, those of leaves moved into the
    /// registry, all others released. Once the steps have been carried out the
    /// tape is to be cleared.
    pub fn backward(&self, mem: &Memory, loss: u64) -> (r: Result<Vec<Step>, BackwardError>)
        ensures
            match r {
                Ok(steps) => backward_plan(mem@, self@.nodes, loss) == Ok::<
                    Seq<StepV>,
                    BackwardError,
                >(step_views(steps@)),
                Err(e) => backward_plan(mem@, self@.nodes, loss) == Err::<
                    Seq<StepV>,
                    BackwardError,
                >(e),
            },
    {
        let mut plan = Plan { steps: Vec::new(), grads: Vec::new() };
        plan.emit(Step::Ones { like: loss });
        plan.grads.push((loss, 0));
        assert(plan@ =~= seeded(loss));
        match plan.walk(mem, &self.nodes) {
            Ok(_) => {},
            Err(e) => {
                return Err(e);
            },
        }
        let old_ones = plan.fold_leaves(mem);
        plan.release_values(&old_ones);
        plan.release_grads();
        Ok(plan.steps)
    }
}

} // verus!
