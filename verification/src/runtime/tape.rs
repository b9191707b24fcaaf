//! Recording of operations for the backward pass. The tape keeps a reference
//! to every tensor that the pass will need.

use crate::runtime::dispatch::Launch;
use crate::runtime::memory;
use crate::runtime::memory::{AllocError, MemV, Memory, OverRelease, TensorV};
use crate::runtime::memory_laws;
use crate::runtime::memory_ops::{find_handle, find_key};
use crate::runtime::tags::{Dtype, OpTag};
use vstd::prelude::*;

verus! {

/// A recorded operation: what it read, what it made, its numeric arguments
/// and, for a permutation, its dimensions.
#[derive(Debug)]
pub struct TapeNode {
    pub op: OpTag,
    pub saved: Vec<u64>,
    pub output: u64,
    pub meta: Vec<i64>,
    pub dims: Vec<usize>,
}

/// Model of [`TapeNode`].
#[verifier::ext_equal]
pub struct NodeV {
    pub op: OpTag,
    pub saved: Seq<u64>,
    pub output: u64,
    pub meta: Seq<i64>,
    pub dims: Seq<usize>,
}

impl NodeV {
    /// An operation on two tensors.
    pub open spec fn binary(op: OpTag, a: u64, b: u64, out: u64) -> NodeV {
        NodeV {
            op,
            saved: seq![a, b],
            output: out,
            meta: Seq::empty(),
            dims: Seq::empty(),
        }
    }

    /// An operation on one tensor.
    pub open spec fn unary(op: OpTag, x: u64, out: u64) -> NodeV {
        NodeV { op, saved: seq![x], output: out, meta: Seq::empty(), dims: Seq::empty() }
    }

    /// An operation along an axis.
    pub open spec fn reduction(op: OpTag, x: u64, out: u64, axis: i64, keepdim: i64) -> NodeV {
        NodeV {
            op,
            saved: seq![x],
            output: out,
            meta: seq![axis, keepdim],
            dims: Seq::empty(),
        }
    }

    /// A permutation of dimensions.
    pub open spec fn reordering(op: OpTag, x: u64, out: u64, dims: Seq<usize>) -> NodeV {
        NodeV { op, saved: seq![x], output: out, meta: Seq::empty(), dims }
    }

    /// A layer normalisation.
    pub open spec fn layernorm(op: OpTag, x: u64, out: u64, variance: u64, axis: i64) -> NodeV {
        NodeV { op, saved: seq![x, variance], output: out, meta: seq![axis], dims: Seq::empty() }
    }

    /// A cross entropy.
    pub open spec fn cross_entropy(
        op: OpTag,
        logits: u64,
        out: u64,
        softmax: u64,
        targets: u64,
    ) -> NodeV {
        NodeV {
            op,
            saved: seq![logits, softmax, targets],
            output: out,
            meta: Seq::empty(),
            dims: Seq::empty(),
        }
    }
}

impl View for TapeNode {
    type V = NodeV;

    open spec fn view(&self) -> NodeV {
        NodeV {
            op: self.op,
            saved: self.saved@,
            output: self.output,
            meta: self.meta@,
            dims: self.dims@,
        }
    }
}

#[derive(Debug)]
pub struct Tape {
    pub recording: bool,
    pub nodes: Vec<TapeNode>,
}

/// Model of [`Tape`].
#[verifier::ext_equal]
pub struct TapeV {
    pub recording: bool,
    pub nodes: Seq<NodeV>,
}

pub open spec fn node_views(nodes: Seq<TapeNode>) -> Seq<NodeV> {
    nodes.map_values(|n: TapeNode| n@)
}

impl View for Tape {
    type V = TapeV;

    open spec fn view(&self) -> TapeV {
        TapeV { recording: self.recording, nodes: node_views(self.nodes@) }
    }
}

/// The references that the first `n` nodes hold, in the order of release.
pub open spec fn held(nodes: Seq<NodeV>, n: nat) -> Seq<u64>
    decreases n,
{
    if n == 0 {
        Seq::empty()
    } else {
        (held(nodes, (n - 1) as nat) + nodes[n - 1].saved).push(nodes[n - 1].output)
    }
}

impl MemV {
    /// Adds a reference to each handle, from position `i` on.
    pub open spec fn retain_all(self, hs: Seq<u64>, i: nat) -> MemV
        decreases hs.len() - i,
    {
        if i >= hs.len() {
            self
        } else {
            self.retain(hs[i as int]).retain_all(hs, i + 1)
        }
    }

    /// Registers a leaf.
    pub open spec fn with_leaf(self, h: u64) -> MemV {
        if memory::position(self.leaves, h, 0) is Some {
            self
        } else {
            MemV { leaves: self.leaves.push(h), ..self }
        }
    }

    /// Keeps a gradient for a leaf.
    pub open spec fn with_leaf_grad(self, leaf: u64, grad: u64) -> MemV {
        MemV {
            leaf_grad: memory::without_key(self.leaf_grad, leaf).push((leaf, grad)),
            ..self
        }
    }

    /// Without the gradients of the handles from position `i` on.
    pub open spec fn without_grads(self, hs: Seq<u64>, i: nat) -> MemV
        decreases hs.len() - i,
    {
        if i >= hs.len() {
            self
        } else {
            (MemV {
                leaf_grad: memory::without_key(self.leaf_grad, hs[i as int]),
                ..self
            }).without_grads(hs, i + 1)
        }
    }

    /// The gradients that `without_grads` takes out, in order.
    pub open spec fn grads_of(self, hs: Seq<u64>, i: nat) -> Seq<u64>
        decreases hs.len() - i,
    {
        if i >= hs.len() {
            Seq::empty()
        } else {
            let rest = (MemV {
                leaf_grad: memory::without_key(self.leaf_grad, hs[i as int]),
                ..self
            }).grads_of(hs, i + 1);
            match memory::value_of(self.leaf_grad, hs[i as int]) {
                Some(g) => seq![g] + rest,
                None => rest,
            }
        }
    }

    /// Forgets every leaf and releases every gradient.
    pub open spec fn reset_leaves(self) -> (MemV, Option<u64>) {
        (MemV { leaves: Seq::empty(), leaf_grad: Seq::empty(), ..self }).release_all(
            self.leaf_grad.map_values(|e: (u64, u64)| e.1),
            0,
        )
    }

    pub open spec fn all_retainable(self, hs: Seq<u64>) -> bool {
        forall|i: int| 0 <= i < hs.len() ==> (#[trigger] hs[i]) == 0 || self.live(hs[i])
    }
}

impl TapeV {
    /// With an operation recorded.
    pub open spec fn with(self, n: NodeV) -> TapeV {
        TapeV { nodes: self.nodes.push(n), ..self }
    }
}

impl Memory {
    fn retain_all(&mut self, hs: &Vec<u64>)
        requires
            old(self).inv(),
            old(self)@.all_retainable(hs@),
        ensures
            final(self).inv(),
            final(self)@ == old(self)@.retain_all(hs@, 0),
    {
        let mut i: usize = 0;
        while i < hs.len()
            invariant
                i <= hs.len(),
                self.inv(),
                self@.all_retainable(hs@),
                old(self)@.retain_all(hs@, 0) == self@.retain_all(hs@, i as nat),
            decreases hs.len() - i,
        {
            let ghost before = self@;
            assert(hs@[i as int] == 0 || self@.live(hs@[i as int]));
            self.tensor_retain(hs[i]);
            proof {
                assert forall|j: int| 0 <= j < hs@.len() implies (#[trigger] hs@[j]) == 0
                    || self@.live(hs@[j]) by {
                    assert(hs@[j] == 0 || before.live(hs@[j]));
                }
            }
            i = i + 1;
        }
    }

    /// Registers a tensor whose gradient is to be kept.
    pub fn tape_register_leaf(&mut self, h: u64)
        requires
            old(self).inv(),
        ensures
            final(self).inv(),
            final(self)@ == old(self)@.with_leaf(h),
    {
        match find_handle(&self.leaves, h) {
            Some(_) => {},
            None => {
                self.leaves.push(h);
            },
        }
        proof {
            memory_laws::wf_ignores(old(self)@, self@);
        }
    }

    /// Keeps a gradient for a leaf.
    pub fn store_leaf_grad(&mut self, leaf: u64, grad: u64)
        requires
            old(self).inv(),
        ensures
            final(self).inv(),
            final(self)@ == old(self)@.with_leaf_grad(leaf, grad),
    {
        match find_key(&self.leaf_grad, leaf) {
            Some(p) => {
                self.leaf_grad.remove(p);
            },
            None => {},
        }
        self.leaf_grad.push((leaf, grad));
        proof {
            memory_laws::wf_ignores(old(self)@, self@);
        }
    }

    /// The gradient of a leaf, with a reference for the caller; zeros of the
    /// leaf's shape where there is none.
    pub fn tape_get_grad(&mut self, h: u64) -> (r: Result<GradReply, AllocError>)
        requires
            old(self).inv(),
            memory::value_of(old(self)@.leaf_grad, h) matches Some(g) ==> g == 0 || old(self)@.live(
                g,
            ),
            memory::value_of(old(self)@.leaf_grad, h) is None ==> old(self)@.live(h),
        ensures
            final(self).inv(),
            match memory::value_of(old(self)@.leaf_grad, h) {
                Some(g) => r == Ok::<GradReply, AllocError>(GradReply::Stored(g)) && final(self)@
                    == old(self)@.retain(g),
                None => {
                    let dims = old(self)@.tensors[h].shape;
                    match r {
                        Err(e) => old(self)@.alloc_error(Dtype::F32, dims) == Some(e) && final(
                            self)@ == old(self)@,
                        Ok(GradReply::Zeros(l)) => old(self)@.alloc_error(
                            Dtype::F32,
                            dims,
                        ) is None && (final(self)@, l) == old(self)@.zeros(dims),
                        Ok(GradReply::Stored(_)) => false,
                    }
                },
            },
    {
        match find_key(&self.leaf_grad, h) {
            Some(p) => {
                let g: u64 = self.leaf_grad[p].1;
                self.tensor_retain(g);
                Ok(GradReply::Stored(g))
            },
            None => {
                let dims: Vec<usize> = self.tensor(h).shape.clone();
                match self.tensor_alloc_zeros_gpu(&dims) {
                    Ok(l) => Ok(GradReply::Zeros(l)),
                    Err(e) => Err(e),
                }
            },
        }
    }

    /// Drops the gradients of the given leaves.
    pub fn tape_zero_grad(&mut self, hs: &Vec<u64>) -> (r: Result<(), OverRelease>)
        requires
            old(self).inv(),
        ensures
            final(self).inv(),
            ({
                let out = old(self)@.without_grads(hs@, 0).release_all(
                    old(self)@.grads_of(hs@, 0),
                    0,
                );
                &&& final(self)@ == out.0
                &&& match r {
                    Ok(_) => out.1 is None,
                    Err(e) => out.1 == Some(e.0),
                }
            }),
    {
        let mut taken: Vec<u64> = Vec::new();
        let mut i: usize = 0;
        while i < hs.len()
            invariant
                i <= hs.len(),
                self.inv(),
                old(self)@.without_grads(hs@, 0) == self@.without_grads(hs@, i as nat),
                old(self)@.grads_of(hs@, 0) == taken@ + self@.grads_of(hs@, i as nat),
            decreases hs.len() - i,
        {
            let ghost before = self@;
            let ghost had = taken@;
            match find_key(&self.leaf_grad, hs[i]) {
                Some(p) => {
                    let e = self.leaf_grad.remove(p);
                    taken.push(e.1);
                    proof {
                        let g = e.1;
                        assert(had + (seq![g] + self@.grads_of(hs@, i as nat + 1)) =~= taken@
                            + self@.grads_of(hs@, i as nat + 1));
                    }
                },
                None => {},
            }
            proof {
                memory_laws::wf_ignores(before, self@);
            }
            i = i + 1;
        }
        assert(taken@ + Seq::<u64>::empty() =~= taken@);
        self.release_all(&taken)
    }

    fn reset_leaves(&mut self) -> (r: Result<(), OverRelease>)
        requires
            old(self).inv(),
        ensures
            final(self).inv(),
            final(self)@ == old(self)@.reset_leaves().0,
            match r {
                Ok(_) => old(self)@.reset_leaves().1 is None,
                Err(e) => old(self)@.reset_leaves().1 == Some(e.0),
            },
    {
        let mut taken: Vec<u64> = Vec::new();
        let mut i: usize = 0;
        while i < self.leaf_grad.len()
            invariant
                i <= self.leaf_grad.len(),
                self@ == old(self)@,
                self.inv(),
                taken@ =~= self@.leaf_grad.map_values(|e: (u64, u64)| e.1).take(i as int),
            decreases self.leaf_grad.len() - i,
        {
            taken.push(self.leaf_grad[i].1);
            i = i + 1;
        }
        assert(taken@ =~= old(self)@.leaf_grad.map_values(|e: (u64, u64)| e.1));
        self.leaves = Vec::new();
        self.leaf_grad = Vec::new();
        proof {
            memory_laws::wf_ignores(old(self)@, self@);
            assert(self@ =~= (MemV {
                leaves: Seq::empty(),
                leaf_grad: Seq::empty(),
                ..old(self)@
            }));
        }
        self.release_all(&taken)
    }
}

/// The gradient of a leaf: one that is kept, or zeros that may still have to
/// be filled in.
#[derive(Clone, Copy, Debug, PartialEq, Eq, Structural)]
pub enum GradReply {
    Stored(u64),
    Zeros(Launch),
}

fn one(a: u64) -> (r: Vec<u64>)
    ensures
        r@ == seq![a],
{
    let mut v: Vec<u64> = Vec::new();
    v.push(a);
    assert(v@ =~= seq![a]);
    v
}

fn two(a: u64, b: u64) -> (r: Vec<u64>)
    ensures
        r@ == seq![a, b],
{
    let mut v: Vec<u64> = Vec::new();
    v.push(a);
    v.push(b);
    assert(v@ =~= seq![a, b]);
    v
}

fn three(a: u64, b: u64, c: u64) -> (r: Vec<u64>)
    ensures
        r@ == seq![a, b, c],
{
    let mut v: Vec<u64> = Vec::new();
    v.push(a);
    v.push(b);
    v.push(c);
    assert(v@ =~= seq![a, b, c]);
    v
}

impl Tape {
    pub fn new() -> (r: Self)
        ensures
            r@ == (TapeV { recording: true, nodes: Seq::empty() }),
    {
        let r = Tape { recording: true, nodes: Vec::new() };
        assert(r@ =~= (TapeV { recording: true, nodes: Seq::empty() }));
        r
    }

    fn push(&mut self, n: TapeNode)
        ensures
            final(self)@ == old(self)@.with(n@),
    {
        let ghost before = self.nodes@;
        self.nodes.push(n);
        assert(node_views(before.push(n)) =~= node_views(before).push(n@));
    }

    /// Records a binary operation. Nothing happens while paused.
    pub fn tape_record_binop(&mut self, mem: &mut Memory, op_tag: i32, a: u64, b: u64, out: u64)
        requires
            old(mem).inv(),
            0 <= op_tag < 25,
            old(self).recording ==> old(mem)@.all_retainable(seq![a, b, out]),
        ensures
            final(mem).inv(),
            if old(self)@.recording {
                &&& final(mem)@ == old(mem)@.retain_all(seq![a, b, out], 0)
                &&& exists|op: OpTag|
                    #![trigger op.tag()]
                    op.tag() == op_tag && final(self)@ == old(self)@.with(
                        NodeV::binary(op, a, b, out),
                    )
            } else {
                final(mem)@ == old(mem)@ && final(self)@ == old(self)@
            },
    {
        if !self.recording {
            return;
        }
        mem.retain_all(&three(a, b, out));
        let op = OpTag::from_tag(op_tag);
        let n = TapeNode { op, saved: two(a, b), output: out, meta: Vec::new(), dims: Vec::new() };
        proof {
            assert(n@ =~= (NodeV {
                op,
                saved: seq![a, b],
                output: out,
                meta: Seq::empty(),
                dims: Seq::empty(),
            }));
        }
        self.push(n);
    }

    /// Records a unary operation. Nothing happens while paused.
    pub fn tape_record_unary(&mut self, mem: &mut Memory, op_tag: i32, x: u64, out: u64)
        requires
            old(mem).inv(),
            0 <= op_tag < 25,
            old(self).recording ==> old(mem)@.all_retainable(seq![x, out]),
        ensures
            final(mem).inv(),
            if old(self)@.recording {
                &&& final(mem)@ == old(mem)@.retain_all(seq![x, out], 0)
                &&& exists|op: OpTag|
                    #![trigger op.tag()]
                    op.tag() == op_tag && final(self)@ == old(self)@.with(
                        NodeV::unary(op, x, out),
                    )
            } else {
                final(mem)@ == old(mem)@ && final(self)@ == old(self)@
            },
    {
        if !self.recording {
            return;
        }
        mem.retain_all(&two(x, out));
        let op = OpTag::from_tag(op_tag);
        let n = TapeNode { op, saved: one(x), output: out, meta: Vec::new(), dims: Vec::new() };
        proof {
            assert(n@ =~= (NodeV {
                op,
                saved: seq![x],
                output: out,
                meta: Seq::empty(),
                dims: Seq::empty(),
            }));
        }
        self.push(n);
    }

    /// Records a reduction along an axis. Nothing happens while paused.
    pub fn tape_record_reduce(
        &mut self,
        mem: &mut Memory,
        op_tag: i32,
        x: u64,
        out: u64,
        axis: i64,
        keepdim: i64,
    )
        requires
            old(mem).inv(),
            0 <= op_tag < 25,
            old(self).recording ==> old(mem)@.all_retainable(seq![x, out]),
        ensures
            final(mem).inv(),
            if old(self)@.recording {
                &&& final(mem)@ == old(mem)@.retain_all(seq![x, out], 0)
                &&& exists|op: OpTag|
                    #![trigger op.tag()]
                    op.tag() == op_tag && final(self)@ == old(self)@.with(
                        NodeV::reduction(op, x, out, axis, keepdim),
                    )
            } else {
                final(mem)@ == old(mem)@ && final(self)@ == old(self)@
            },
    {
        if !self.recording {
            return;
        }
        mem.retain_all(&two(x, out));
        let op = OpTag::from_tag(op_tag);
        let mut meta: Vec<i64> = Vec::new();
        meta.push(axis);
        meta.push(keepdim);
        let n = TapeNode { op, saved: one(x), output: out, meta, dims: Vec::new() };
        proof {
            assert(n@ =~= (NodeV {
                op,
                saved: seq![x],
                output: out,
                meta: seq![axis, keepdim],
                dims: Seq::empty(),
            }));
        }
        self.push(n);
    }

    /// Records a permutation of dimensions. Nothing happens while paused.
    pub fn tape_record_perm(
        &mut self,
        mem: &mut Memory,
        op_tag: i32,
        x: u64,
        out: u64,
        dims: &Vec<usize>,
    )
        requires
            old(mem).inv(),
            0 <= op_tag < 25,
            old(self).recording ==> old(mem)@.all_retainable(seq![x, out]),
        ensures
            final(mem).inv(),
            if old(self)@.recording {
                &&& final(mem)@ == old(mem)@.retain_all(seq![x, out], 0)
                &&& exists|op: OpTag|
                    #![trigger op.tag()]
                    op.tag() == op_tag && final(self)@ == old(self)@.with(
                        NodeV::reordering(op, x, out, dims@),
                    )
            } else {
                final(mem)@ == old(mem)@ && final(self)@ == old(self)@
            },
    {
        if !self.recording {
            return;
        }
        mem.retain_all(&two(x, out));
        let op = OpTag::from_tag(op_tag);
        let n = TapeNode { op, saved: one(x), output: out, meta: Vec::new(), dims: dims.clone() };
        proof {
            assert(n@ =~= (NodeV {
                op,
                saved: seq![x],
                output: out,
                meta: Seq::empty(),
                dims: dims@,
            }));
        }
        self.push(n);
    }

    /// Records a layer normalisation. The tape takes over the caller's
    /// reference to the variance; while paused that reference is released.
    pub fn tape_record_layernorm(
        &mut self,
        mem: &mut Memory,
        op_tag: i32,
        x: u64,
        out: u64,
        var_h: u64,
        axis: i64,
    ) -> (r: Result<(), OverRelease>)
        requires
            old(mem).inv(),
            0 <= op_tag < 25,
            old(self).recording ==> old(mem)@.all_retainable(seq![x, out]),
        ensures
            final(mem).inv(),
            if old(self)@.recording {
                &&& r is Ok
                &&& final(mem)@ == old(mem)@.retain_all(seq![x, out], 0)
                &&& exists|op: OpTag|
                    #![trigger op.tag()]
                    op.tag() == op_tag && final(self)@ == old(self)@.with(
                        NodeV::layernorm(op, x, out, var_h, axis),
                    )
            } else {
                &&& final(self)@ == old(self)@
                &&& final(mem)@ == old(mem)@.release(var_h).0
                &&& match r {
                    Ok(_) => old(mem)@.release(var_h).1 is None,
                    Err(e) => old(mem)@.release(var_h).1 == Some(e.0),
                }
            },
    {
        if !self.recording {
            return mem.tensor_release(var_h);
        }
        mem.retain_all(&two(x, out));
        let op = OpTag::from_tag(op_tag);
        let mut meta: Vec<i64> = Vec::new();
        meta.push(axis);
        let n = TapeNode { op, saved: two(x, var_h), output: out, meta, dims: Vec::new() };
        proof {
            assert(n@ =~= (NodeV {
                op,
                saved: seq![x, var_h],
                output: out,
                meta: seq![axis],
                dims: Seq::empty(),
            }));
        }
        self.push(n);
        Ok(())
    }

    /// Records a cross entropy. The tape takes over the caller's reference to
    /// the softmax; while paused that reference is released.
    pub fn tape_record_cross_entropy(
        &mut self,
        mem: &mut Memory,
        op_tag: i32,
        logits: u64,
        out: u64,
        softmax_h: u64,
        targets: u64,
    ) -> (r: Result<(), OverRelease>)
        requires
            old(mem).inv(),
            0 <= op_tag < 25,
            old(self).recording ==> old(mem)@.all_retainable(seq![logits, out, targets]),
        ensures
            final(mem).inv(),
            if old(self)@.recording {
                &&& r is Ok
                &&& final(mem)@ == old(mem)@.retain_all(seq![logits, out, targets], 0)
                &&& exists|op: OpTag|
                    #![trigger op.tag()]
                    op.tag() == op_tag && final(self)@ == old(self)@.with(
                        NodeV::cross_entropy(op, logits, out, softmax_h, targets),
                    )
            } else {
                &&& final(self)@ == old(self)@
                &&& final(mem)@ == old(mem)@.release(softmax_h).0
                &&& match r {
                    Ok(_) => old(mem)@.release(softmax_h).1 is None,
                    Err(e) => old(mem)@.release(softmax_h).1 == Some(e.0),
                }
            },
    {
        if !self.recording {
            return mem.tensor_release(softmax_h);
        }
        mem.retain_all(&three(logits, out, targets));
        let op = OpTag::from_tag(op_tag);
        let n = TapeNode {
            op,
            saved: three(logits, softmax_h, targets),
            output: out,
            meta: Vec::new(),
            dims: Vec::new(),
        };
        proof {
            assert(n@ =~= (NodeV {
                op,
                saved: seq![logits, softmax_h, targets],
                output: out,
                meta: Seq::empty(),
                dims: Seq::empty(),
            }));
        }
        self.push(n);
        Ok(())
    }

    /// Records a row lookup. Nothing happens while paused.
    pub fn tape_record_embedding(
        &mut self,
        mem: &mut Memory,
        op_tag: i32,
        weight: u64,
        indices: u64,
        out: u64,
    )
        requires
            old(mem).inv(),
            0 <= op_tag < 25,
            old(self).recording ==> old(mem)@.all_retainable(seq![weight, indices, out]),
        ensures
            final(mem).inv(),
            if old(self)@.recording {
                &&& final(mem)@ == old(mem)@.retain_all(seq![weight, indices, out], 0)
                &&& exists|op: OpTag|
                    #![trigger op.tag()]
                    op.tag() == op_tag && final(self)@ == old(self)@.with(
                        NodeV::binary(op, weight, indices, out),
                    )
            } else {
                final(mem)@ == old(mem)@ && final(self)@ == old(self)@
            },
    {
        self.tape_record_binop(mem, op_tag, weight, indices, out);
    }

    pub fn tape_pause(&mut self)
        ensures
            final(self)@ == (TapeV { recording: false, ..old(self)@ }),
    {
        self.recording = false;
    }

    pub fn tape_resume(&mut self)
        ensures
            final(self)@ == (TapeV { recording: true, ..old(self)@ }),
    {
        self.recording = true;
    }

    /// Drops all recorded operations and the references that they hold. The
    /// leaves and their gradients stay.
    pub fn tape_clear(&mut self, mem: &mut Memory) -> (r: Result<(), OverRelease>)
        requires
            old(mem).inv(),
        ensures
            final(mem).inv(),
            ({
                let out = old(mem)@.release_all(
                    held(old(self)@.nodes, old(self)@.nodes.len()),
                    0,
                );
                &&& final(mem)@ == out.0
                &&& match r {
                    Ok(_) => out.1 is None && final(self)@ == (TapeV {
                        nodes: Seq::empty(),
                        ..old(self)@
                    }),
                    Err(e) => out.1 == Some(e.0) && final(self)@ == old(self)@,
                }
            }),
    {
        let mut hs: Vec<u64> = Vec::new();
        let mut i: usize = 0;
        while i < self.nodes.len()
            invariant
                i <= self.nodes.len(),
                self@ == old(self)@,
                hs@ == held(self@.nodes, i as nat),
            decreases self.nodes.len() - i,
        {
            let n = &self.nodes[i];
            let ghost start = hs@;
            let mut j: usize = 0;
            assert(n@ == self@.nodes[i as int]);
            while j < n.saved.len()
                invariant
                    j <= n.saved.len(),
                    hs@ =~= start + n.saved@.take(j as int),
                decreases n.saved.len() - j,
            {
                hs.push(n.saved[j]);
                j = j + 1;
            }
            assert(n.saved@.take(j as int) =~= n.saved@);
            hs.push(n.output);
            i = i + 1;
        }
        match mem.release_all(&hs) {
            Ok(_) => {
                self.nodes = Vec::new();
                assert(self@ =~= (TapeV { nodes: Seq::empty(), ..old(self)@ }));
                Ok(())
            },
            Err(e) => Err(e),
        }
    }

    /// Drops everything that was recorded, and all leaves with their
    /// gradients.
    pub fn tape_reset(&mut self, mem: &mut Memory) -> (r: Result<(), OverRelease>)
        requires
            old(mem).inv(),
        ensures
            final(mem).inv(),
            match old(mem)@.reset_leaves() {
                (m, Some(bad)) => {
                    &&& r == Err::<(), OverRelease>(OverRelease(bad))
                    &&& final(mem)@ == m
                    &&& final(self)@ == old(self)@
                },
                (m, None) => match m.release_all(
                    held(old(self)@.nodes, old(self)@.nodes.len()),
                    0,
                ) {
                    (m2, Some(bad)) => {
                        &&& r == Err::<(), OverRelease>(OverRelease(bad))
                        &&& final(mem)@ == m2
                        &&& final(self)@ == old(self)@
                    },
                    (m2, None) => {
                        &&& r is Ok
                        &&& final(mem)@ == m2
                        &&& final(self)@ == (TapeV { recording: true, nodes: Seq::empty() })
                    },
                },
            },
    {
        match mem.reset_leaves() {
            Ok(_) => {},
            Err(e) => {
                return Err(e);
            },
        }
        match self.tape_clear(mem) {
            Ok(_) => {},
            Err(e) => {
                return Err(e);
            },
        }
        self.recording = true;
        Ok(())
    }
}

/// How often a handle occurs in the part of a list from `i` on.
pub open spec fn times(hs: Seq<u64>, h: u64, i: nat) -> nat
    decreases hs.len() - i,
{
    if i >= hs.len() {
        0
    } else {
        times(hs, h, i + 1) + (if hs[i as int] == h {
            1nat
        } else {
            0nat
        })
    }
}

impl MemV {
    /// Every tensor with the references of the handles of a list, from `i`
    /// on, on top of those it has.
    pub open spec fn with_extra(self, hs: Seq<u64>, i: nat) -> Map<u64, TensorV> {
        Map::new(
            |h: u64| self.tensors.contains_key(h),
            |h: u64|
                TensorV {
                    refs: (self.tensors[h].refs + times(hs, h, i)) as usize,
                    ..self.tensors[h]
                },
        )
    }

    /// Everything but the tensors and the counters is the same.
    pub open spec fn same_but_refs(self, other: MemV) -> bool {
        self == (MemV { tensors: self.tensors, counts: self.counts, ..other })
    }
}

proof fn times_bound(hs: Seq<u64>, h: u64, i: nat)
    requires
        i <= hs.len(),
    ensures
        times(hs, h, i) <= hs.len() - i,
    decreases hs.len() - i,
{
    if i < hs.len() {
        times_bound(hs, h, i + 1);
    }
}

proof fn retains_add(m: MemV, hs: Seq<u64>, i: nat)
    requires
        i <= hs.len(),
        m.all_retainable(hs),
        forall|h: u64| #[trigger]
            m.tensors.contains_key(h) ==> m.tensors[h].refs + hs.len() <= usize::MAX + i,
        !m.tensors.contains_key(0),
    ensures
        m.retain_all(hs, i).tensors == m.with_extra(hs, i),
        m.retain_all(hs, i).same_but_refs(m),
    decreases hs.len() - i,
{
    if i >= hs.len() {
        assert(m.with_extra(hs, i) =~= m.tensors);
        assert(m.retain_all(hs, i).same_but_refs(m));
    } else {
        let h = hs[i as int];
        assert(h == 0 || m.live(h));
        let n = m.retain(h);
        assert forall|x: u64| #[trigger] n.tensors.contains_key(x) implies n.tensors[x].refs
            + hs.len() <= usize::MAX + (i + 1) by {
            assert(m.tensors.contains_key(x));
        }
        assert forall|j: int| 0 <= j < hs.len() implies (#[trigger] hs[j]) == 0 || n.live(
            hs[j],
        ) by {
            assert(hs[j] == 0 || m.live(hs[j]));
        }
        retains_add(n, hs, i + 1);
        assert(n.with_extra(hs, i + 1) =~= m.with_extra(hs, i)) by {
            assert forall|x: u64| m.tensors.contains_key(x) implies n.with_extra(hs, i + 1)[x]
                == m.with_extra(hs, i)[x] by {
                times_bound(hs, x, i + 1);
            }
        }
        assert(n.same_but_refs(m));
    }
}

proof fn releases_subtract(m: MemV, base: MemV, hs: Seq<u64>, i: nat)
    requires
        i <= hs.len(),
        base.all_retainable(hs),
        forall|h: u64| #[trigger]
            base.tensors.contains_key(h) ==> 0 < base.tensors[h].refs && base.tensors[h].refs
                + hs.len() <= usize::MAX,
        !base.tensors.contains_key(0),
        m.tensors == base.with_extra(hs, i),
        m.same_but_refs(base),
    ensures
        m.release_all(hs, i).1 is None,
        m.release_all(hs, i).0.tensors == base.tensors,
        m.release_all(hs, i).0.same_but_refs(base),
    decreases hs.len() - i,
{
    if i >= hs.len() {
        assert(base.with_extra(hs, i) =~= base.tensors);
    } else {
        let h = hs[i as int];
        assert(h == 0 || base.live(h));
        times_bound(hs, h, i + 1);
        let n = m.release(h).0;
        assert(n.tensors =~= base.with_extra(hs, i + 1)) by {
            assert forall|x: u64| base.tensors.contains_key(x) implies n.tensors[x]
                == base.with_extra(hs, i + 1)[x] by {
                times_bound(hs, x, i + 1);
                times_bound(hs, x, i);
            }
        }
        assert(n.same_but_refs(base));
        releases_subtract(n, base, hs, i + 1);
    }
}

/// Recording tensors and clearing the tape restores every reference count,
/// and frees nothing.
pub proof fn record_then_clear(m: MemV, hs: Seq<u64>)
    requires
        m.wf(),
        m.all_retainable(hs),
        forall|h: u64| #[trigger]
            m.tensors.contains_key(h) ==> 0 < m.tensors[h].refs && m.tensors[h].refs + hs.len()
                <= usize::MAX,
    ensures
        m.retain_all(hs, 0).release_all(hs, 0).1 is None,
        m.retain_all(hs, 0).release_all(hs, 0).0.tensors == m.tensors,
        m.retain_all(hs, 0).release_all(hs, 0).0.same_but_refs(m),
{
    assert(!m.tensors.contains_key(0));
    retains_add(m, hs, 0);
    releases_subtract(m.retain_all(hs, 0), m, hs, 0);
}

} // verus!
