//! Device work: zero fills, kernels and matrix products. Each function does
//! the bookkeeping and says what is to be encoded.

use crate::runtime::layout::ShapeError;
use crate::runtime::matmul;
use crate::runtime::matmul::{plan_matmul, MatmulPlan};
use crate::runtime::memory::{Alloc, AllocError, MemV, Memory};
use crate::runtime::memory_laws;
use crate::runtime::shape;
use crate::runtime::tags::Dtype;
use vstd::prelude::*;

verus! {

/// Device work whose output has been allocated.
#[derive(Clone, Copy, Debug, PartialEq, Eq, Structural)]
pub struct Launch {
    pub out: Alloc,
    /// Whether there is anything to encode.
    pub encode: bool,
    /// Generation into which to encode.
    pub gen: u64,
    /// Whether to commit and wait at once.
    pub commit: bool,
}

/// Why device work is refused.
#[derive(Clone, Copy, Debug, PartialEq, Eq, Structural)]
pub enum LaunchError {
    /// An output that takes its shape from the first input, and no input.
    NoInputs,
    Alloc(AllocError),
    Shape(ShapeError),
}

impl MemV {
    /// With work encoded that reads `inputs` and writes `out`.
    pub open spec fn encoded(self, inputs: Seq<u64>, out: u64) -> MemV {
        let g = self.gens.opened();
        let s = (MemV { gens: g, ..self }).written(out, g.encode).used_all(
            inputs,
            g.encode,
            0,
        ).used(out, g.encode);
        MemV { gens: g.settled(), ..s }
    }

    /// Allocates an output and encodes work for it, unless it is empty.
    pub open spec fn launch(self, inputs: Seq<u64>, dtype: Dtype, dims: Seq<usize>) -> (
        MemV,
        Launch,
    ) {
        let (s, a) = self.allocate(dtype, dims);
        if shape::count(dims) == 0 {
            (s, Launch { out: a, encode: false, gen: 0, commit: false })
        } else {
            (
                s.encoded(inputs, a.handle),
                Launch {
                    out: a,
                    encode: true,
                    gen: s.gens.opened().encode,
                    commit: s.gens.sync,
                },
            )
        }
    }

    /// Allocates a tensor of zeros: a new buffer holds zeros already, one that
    /// was used before is filled.
    pub open spec fn zeros(self, dims: Seq<usize>) -> (MemV, Launch) {
        let (s, a) = self.allocate(Dtype::F32, dims);
        if a.pooled {
            (
                s.encoded(Seq::empty(), a.handle),
                Launch {
                    out: a,
                    encode: true,
                    gen: s.gens.opened().encode,
                    commit: s.gens.sync,
                },
            )
        } else {
            (s, Launch { out: a, encode: false, gen: 0, commit: false })
        }
    }

    pub open spec fn all_live(self, hs: Seq<u64>) -> bool {
        forall|i: int| 0 <= i < hs.len() ==> self.live(#[trigger] hs[i])
    }
}

/// Element type of an output: the one asked for, or that of the first input.
pub open spec fn out_dtype(tag: i32, first: Option<Dtype>) -> Result<Dtype, LaunchError> {
    if tag < 0 && first is Some {
        Ok(first->0)
    } else if 0 <= tag < 11 {
        Ok(dtype_with(tag as int))
    } else {
        Err(LaunchError::Alloc(AllocError::UnknownDtype(tag)))
    }
}

/// The element type with a number.
pub open spec fn dtype_with(tag: int) -> Dtype {
    choose|d: Dtype| d.tag() == tag
}

proof fn dtype_with_tag(d: Dtype)
    ensures
        dtype_with(d.tag()) == d,
{
    let e = dtype_with(d.tag());
    crate::runtime::tags::dtype_tags_distinct(d, e);
}

/// Stride of dimension `k` among the first `rank`, as machine arithmetic
/// computes it.
pub open spec fn machine_stride(dims: Seq<usize>, rank: nat, k: nat) -> usize
    decreases rank - k,
{
    if k + 1 >= rank {
        1
    } else {
        machine_stride(dims, rank, k + 1).wrapping_mul(dims[k as int + 1])
    }
}

/// Number of dimensions that a kernel is told of.
pub open spec fn meta_rank(dims: Seq<usize>) -> nat {
    if dims.len() < 8 {
        dims.len()
    } else {
        8
    }
}

/// What a kernel is told of a tensor: its rank, eight sizes and eight strides.
pub open spec fn meta_of(dims: Seq<usize>) -> Seq<u32> {
    let rank = meta_rank(dims);
    Seq::new(
        17,
        |i: int|
            if i == 0 {
                rank as u32
            } else if 1 <= i < 1 + rank {
                dims[i - 1] as u32
            } else if 9 <= i < 9 + rank {
                machine_stride(dims, rank, (i - 9) as nat) as u32
            } else {
                0
            },
    )
}

/// The strides that a kernel is told are the row-major strides, for a tensor
/// with elements and at most eight dimensions.
pub proof fn machine_stride_exact(dims: Seq<usize>, k: nat)
    requires
        shape::solid(dims),
        dims.len() <= 8,
        shape::count(dims) <= usize::MAX,
        k < dims.len(),
    ensures
        machine_stride(dims, dims.len(), k) == shape::stride(dims, k as int),
    decreases dims.len() - k,
{
    let n = dims.len();
    if k + 1 >= n {
        assert(dims.skip(k as int + 1) =~= Seq::<usize>::empty());
    } else {
        machine_stride_exact(dims, k + 1);
        let tail = dims.skip(k as int + 1);
        count_first(tail);
        assert(tail.skip(1) =~= dims.skip(k as int + 2));
        assert(tail[0] == dims[k as int + 1]);
        count_suffix(dims, k as int + 1);
        let a = shape::count(tail.skip(1)) as int;
        let b = tail[0] as int;
        assert(a * b == b * a) by (nonlinear_arith);
    }
}

/// Splitting off the first dimension.
proof fn count_first(s: Seq<usize>)
    requires
        s.len() > 0,
    ensures
        shape::count(s) == (s[0] as nat) * shape::count(s.skip(1)),
    decreases s.len(),
{
    if s.len() == 1 {
        assert(s.drop_last() =~= Seq::<usize>::empty());
        assert(s.skip(1) =~= Seq::<usize>::empty());
        assert(1 * s[0] as nat == s[0] as nat * 1);
    } else {
        let t = s.drop_last();
        count_first(t);
        assert(t.skip(1) =~= s.skip(1).drop_last());
        let a = s[0] as nat;
        let b = shape::count(t.skip(1));
        let c = s.last() as nat;
        assert((a * b) * c == a * (b * c)) by (nonlinear_arith);
    }
}

/// No trailing part of a solid shape has more elements than the whole.
proof fn count_suffix(s: Seq<usize>, k: int)
    requires
        shape::solid(s),
        0 <= k <= s.len(),
    ensures
        0 < shape::count(s.skip(k)),
        shape::count(s.skip(k)) <= shape::count(s),
    decreases s.len(),
{
    if s.len() == 0 {
        assert(s.skip(k) =~= s);
    } else {
        count_first(s);
        let t = s.skip(1);
        assert(s[0] > 0);
        assert(shape::solid(t)) by {
            assert forall|d: int| 0 <= d < t.len() implies #[trigger] t[d] > 0 by {
                assert(s[d + 1] > 0);
            }
        }
        if k == 0 {
            assert(s.skip(0) =~= s);
            count_suffix(t, 0);
            assert(t.skip(0) =~= t);
            assert((s[0] as nat) * shape::count(t) > 0) by (nonlinear_arith)
                requires
                    s[0] as nat > 0,
                    shape::count(t) > 0,
            ;
        } else {
            count_suffix(t, k - 1);
            assert(t.skip(k - 1) =~= s.skip(k));
            assert((s[0] as nat) * shape::count(t) >= shape::count(t)) by (nonlinear_arith)
                requires
                    s[0] as nat >= 1,
                    shape::count(t) >= 0,
            ;
        }
    }
}

/// What a kernel is told of a tensor.
pub fn tensor_meta(dims: &Vec<usize>) -> (r: Vec<u32>)
    ensures
        r@ == meta_of(dims@),
{
    let rank: usize = if dims.len() < 8 {
        dims.len()
    } else {
        8
    };
    let mut meta: Vec<u32> = vec![0;17];
    meta.set(0, rank as u32);
    let mut k: usize = rank;
    let mut stride: usize = 1;
    while k > 0
        invariant
            k <= rank,
            rank == meta_rank(dims@),
            rank <= dims.len(),
            rank <= 8,
            meta.len() == 17,
            k < rank ==> stride == machine_stride(dims@, rank as nat, k as nat).wrapping_mul(
                dims@[k as int],
            ),
            k == rank ==> stride == 1,
            forall|i: int|
                0 <= i < 17 ==> #[trigger] meta@[i] == (if i == 0 || 1 + k <= i < 1 + rank || 9 + k
                    <= i < 9 + rank {
                    meta_of(dims@)[i]
                } else {
                    0
                }),
        decreases k,
    {
        k = k - 1;
        #[verifier::truncate]
        let d: u32 = dims[k] as u32;
        #[verifier::truncate]
        let s: u32 = stride as u32;
        assert(stride == machine_stride(dims@, rank as nat, k as nat));
        meta.set(1 + k, d);
        meta.set(9 + k, s);
        stride = stride.wrapping_mul(dims[k]);
    }
    assert(meta@ =~= meta_of(dims@));
    meta
}

/// Width of a thread group for a number of threads.
pub fn threadgroup_width(max_threads: usize, threads: usize) -> (r: usize)
    ensures
        r == (if max_threads < threads {
            max_threads
        } else {
            threads
        }),
{
    if max_threads < threads {
        max_threads
    } else {
        threads
    }
}

impl Memory {
    fn encode(&mut self, inputs: &Vec<u64>, out: u64) -> (r: (u64, bool))
        requires
            old(self).inv(),
            old(self)@.live(out),
            old(self)@.all_live(inputs@),
        ensures
            final(self).inv(),
            final(self)@ == old(self)@.encoded(inputs@, out),
            r.0 == old(self)@.gens.opened().encode,
            r.1 == old(self)@.gens.sync,
    {
        let gen: u64 = self.gens.ensure_command_buffer();
        proof {
            memory_laws::wf_ignores(old(self)@, self@);
        }
        self.stamp_write(out, gen);
        let ghost s = self@;
        let mut i: usize = 0;
        while i < inputs.len()
            invariant
                i <= inputs.len(),
                self.inv(),
                s.used_all(inputs@, gen, 0) == self@.used_all(inputs@, gen, i as nat),
                self@.tensors == s.tensors,
                self@.gens == s.gens,
                s.all_live(inputs@),
                s.live(out),
            decreases inputs.len() - i,
        {
            assert(s.live(inputs@[i as int]));
            self.stamp_use(inputs[i], gen);
            i = i + 1;
        }
        self.stamp_use(out, gen);
        let ghost t = self@;
        let commit = self.gens.settle();
        proof {
            memory_laws::wf_ignores(t, self@);
            assert(self@ =~= old(self)@.encoded(inputs@, out));
        }
        (gen, commit)
    }

    fn launch(&mut self, inputs: &Vec<u64>, dtype: Dtype, dims: &Vec<usize>) -> (r: Result<
        Launch,
        LaunchError,
    >)
        requires
            old(self).inv(),
            old(self)@.all_live(inputs@),
        ensures
            final(self).inv(),
            match r {
                Err(e) => final(self)@ == old(self)@ && match old(self)@.alloc_error(
                    dtype,
                    dims@,
                ) {
                    Some(x) => e == LaunchError::Alloc(x),
                    None => false,
                },
                Ok(l) => old(self)@.alloc_error(dtype, dims@) is None && (final(self)@, l) == old(
                    self,
                )@.launch(inputs@, dtype, dims@),
            },
    {
        let out = match self.alloc_tensor(dtype, dims) {
            Ok(a) => a,
            Err(e) => {
                return Err(LaunchError::Alloc(e));
            },
        };
        proof {
            assert(self@.all_live(inputs@)) by {
                assert forall|i: int| 0 <= i < inputs@.len() implies self@.live(
                    #[trigger] inputs@[i],
                ) by {
                    assert(old(self)@.live(inputs@[i]));
                }
            }
        }
        let len: usize = self.tensor(out.handle).len;
        proof {
            assert(self@.wf());
            assert(self@.tensors.contains_key(out.handle));
            assert(self@.tensor_ok(self@.tensors[out.handle]));
        }
        if len == 0 {
            return Ok(Launch { out, encode: false, gen: 0, commit: false });
        }
        let (gen, commit) = self.encode(inputs, out.handle);
        Ok(Launch { out, encode: true, gen, commit })
    }

    /// Allocates a tensor of zeros.
    pub fn tensor_alloc_zeros_gpu(&mut self, dims: &Vec<usize>) -> (r: Result<Launch, AllocError>)
        requires
            old(self).inv(),
        ensures
            final(self).inv(),
            match r {
                Err(e) => old(self)@.alloc_error(Dtype::F32, dims@) == Some(e) && final(self)@
                    == old(self)@,
                Ok(l) => old(self)@.alloc_error(Dtype::F32, dims@) is None && (final(self)@, l)
                    == old(self)@.zeros(dims@),
            },
    {
        let out = match self.alloc_tensor(Dtype::F32, dims) {
            Ok(a) => a,
            Err(e) => {
                return Err(e);
            },
        };
        if out.pooled {
            let none: Vec<u64> = Vec::new();
            assert(none@ =~= Seq::<u64>::empty());
            let (gen, commit) = self.encode(&none, out.handle);
            Ok(Launch { out, encode: true, gen, commit })
        } else {
            Ok(Launch { out, encode: false, gen: 0, commit: false })
        }
    }

    /// Prepares a kernel whose output is like its first input, with a thread
    /// per element.
    pub fn kernel_dispatch(&mut self, inputs: &Vec<u64>) -> (r: Result<Launch, LaunchError>)
        requires
            old(self).inv(),
            old(self)@.all_live(inputs@),
        ensures
            final(self).inv(),
            if inputs@.len() == 0 {
                r == Err::<Launch, LaunchError>(LaunchError::NoInputs) && final(self)@ == old(
                    self,
                )@
            } else {
                let t = old(self)@.tensors[inputs@[0]];
                match r {
                    Err(e) => final(self)@ == old(self)@ && match old(self)@.alloc_error(
                        t.dtype,
                        t.shape,
                    ) {
                        Some(x) => e == LaunchError::Alloc(x),
                        None => false,
                    },
                    Ok(l) => old(self)@.alloc_error(t.dtype, t.shape) is None && (final(self)@, l)
                        == old(self)@.launch(inputs@, t.dtype, t.shape),
                }
            },
    {
        if inputs.len() == 0 {
            return Err(LaunchError::NoInputs);
        }
        assert(self@.live(inputs@[0]));
        let first = self.tensor(inputs[0]);
        let dtype = first.dtype;
        let dims: Vec<usize> = first.shape.clone();
        self.launch(inputs, dtype, &dims)
    }

    /// Prepares a kernel with an output of a given shape and element type; an
    /// empty shape takes those of the first input. Returns also what the
    /// kernel is told of each input and of the output.
    pub fn kernel_dispatch_v2(
        &mut self,
        inputs: &Vec<u64>,
        out_shape: &Vec<usize>,
        out_dtype_tag: i32,
    ) -> (r: Result<(Launch, Vec<Vec<u32>>), LaunchError>)
        requires
            old(self).inv(),
            old(self)@.all_live(inputs@),
        ensures
            final(self).inv(),
            if out_shape@.len() == 0 && inputs@.len() == 0 {
                r == Err::<(Launch, Vec<Vec<u32>>), LaunchError>(LaunchError::NoInputs) && final(self)@ == old(self)@
            } else {
                let first = old(self)@.tensors[inputs@[0]];
                let inherit = out_shape@.len() == 0;
                let dims = if inherit {
                    first.shape
                } else {
                    out_shape@
                };
                match out_dtype(
                    out_dtype_tag,
                    if inherit {
                        Some(first.dtype)
                    } else {
                        None
                    },
                ) {
                    Err(e) => r == Err::<(Launch, Vec<Vec<u32>>), LaunchError>(e) && final(self)@
                        == old(self)@,
                    Ok(dtype) => match r {
                        Err(e) => final(self)@ == old(self)@ && match old(self)@.alloc_error(
                            dtype,
                            dims,
                        ) {
                            Some(x) => e == LaunchError::Alloc(x),
                            None => false,
                        },
                        Ok(l) => {
                            &&& old(self)@.alloc_error(dtype, dims) is None
                            &&& (final(self)@, l.0) == old(self)@.launch(inputs@, dtype, dims)
                            &&& l.1@.len() == inputs@.len() + 1
                            &&& forall|i: int|
                                0 <= i < inputs@.len() ==> (#[trigger] l.1@[i])@ == meta_of(
                                    old(self)@.tensors[inputs@[i]].shape,
                                )
                            &&& l.1@[inputs@.len() as int]@ == meta_of(dims)
                        },
                    },
                }
            },
    {
        if out_shape.len() == 0 && inputs.len() == 0 {
            return Err(LaunchError::NoInputs);
        }
        let inherit = out_shape.len() == 0;
        let dims: Vec<usize> = if inherit {
            assert(self@.live(inputs@[0]));
            self.tensor(inputs[0]).shape.clone()
        } else {
            out_shape.clone()
        };
        let dtype: Dtype = if inherit && out_dtype_tag < 0 {
            assert(self@.live(inputs@[0]));
            self.tensor(inputs[0]).dtype
        } else if 0 <= out_dtype_tag && out_dtype_tag < 11 {
            let d = Dtype::from_tag(out_dtype_tag);
            proof {
                dtype_with_tag(d);
            }
            d
        } else {
            return Err(LaunchError::Alloc(AllocError::UnknownDtype(out_dtype_tag)));
        };
        let mut metas: Vec<Vec<u32>> = Vec::new();
        let mut i: usize = 0;
        while i < inputs.len()
            invariant
                i <= inputs.len(),
                self@ == old(self)@,
                self@.all_live(inputs@),
                metas.len() == i,
                forall|j: int|
                    0 <= j < i ==> (#[trigger] metas@[j])@ == meta_of(
                        old(self)@.tensors[inputs@[j]].shape,
                    ),
            decreases inputs.len() - i,
        {
            assert(self@.live(inputs@[i as int]));
            let m = tensor_meta(&self.tensor(inputs[i]).shape);
            metas.push(m);
            i = i + 1;
        }
        metas.push(tensor_meta(&dims));
        match self.launch(inputs, dtype, &dims) {
            Ok(l) => Ok((l, metas)),
            Err(e) => Err(e),
        }
    }

    /// Prepares a matrix product. Where a dimension is zero there is nothing
    /// to encode: both inputs are made readable, and the result is zeros that
    /// the host writes. Returns also whether encoded work has to be committed
    /// and waited for first.
    pub fn tensor_matmul(&mut self, a: u64, b: u64) -> (r: Result<
        (MatmulPlan, Launch, bool),
        LaunchError,
    >)
        requires
            old(self).inv(),
            old(self)@.live(a),
            old(self)@.live(b),
            a != 0,
            b != 0,
        ensures
            final(self).inv(),
            match matmul::plan_of(old(self)@.tensors[a].shape, old(self)@.tensors[b].shape) {
                Err(e) => r == Err::<(MatmulPlan, Launch, bool), LaunchError>(
                    LaunchError::Shape(e),
                ) && final(self)@ == old(self)@,
                Ok(p) => if p.hollow() {
                    let wait = old(self)@.pending(a) || old(self)@.pending(b);
                    let s = if wait {
                        MemV { gens: old(self)@.gens.flushed(), ..old(self)@ }
                    } else {
                        old(self)@
                    };
                    match r {
                        Err(e) => final(self)@ == s && match s.alloc_error(
                            Dtype::F32,
                            p.out_dims(),
                        ) {
                            Some(x) => e == LaunchError::Alloc(x),
                            None => false,
                        },
                        Ok(l) => {
                            &&& s.alloc_error(Dtype::F32, p.out_dims()) is None
                            &&& l.0 == p
                            &&& (final(self)@, l.1.out) == s.allocate(Dtype::F32, p.out_dims())
                            &&& !l.1.encode
                            &&& !l.1.commit
                            &&& l.2 == (wait && old(self)@.gens.open)
                        },
                    }
                } else {
                    match r {
                        Err(e) => final(self)@ == old(self)@ && match old(self)@.alloc_error(
                            Dtype::F32,
                            p.out_dims(),
                        ) {
                            Some(x) => e == LaunchError::Alloc(x),
                            None => false,
                        },
                        Ok(l) => {
                            &&& old(self)@.alloc_error(Dtype::F32, p.out_dims()) is None
                            &&& l.0 == p
                            &&& (final(self)@, l.1) == old(self)@.launch(
                                seq![a, b],
                                Dtype::F32,
                                p.out_dims(),
                            )
                            &&& !l.2
                        },
                    }
                },
            },
    {
        let plan = match plan_matmul(&self.tensor(a).shape, &self.tensor(b).shape) {
            Ok(p) => p,
            Err(e) => {
                return Err(LaunchError::Shape(e));
            },
        };
        let dims = plan.out_shape();
        if plan.is_hollow() {
            let first = self.flush_if_pending(a);
            let second = self.flush_if_pending(b);
            proof {
                let wait = old(self)@.pending(a) || old(self)@.pending(b);
                let s = if wait {
                    MemV { gens: old(self)@.gens.flushed(), ..old(self)@ }
                } else {
                    old(self)@
                };
                assert(self@ =~= s);
            }
            match self.alloc_tensor(Dtype::F32, &dims) {
                Ok(out) => Ok(
                    (
                        plan,
                        Launch { out, encode: false, gen: 0, commit: false },
                        first || second,
                    ),
                ),
                Err(e) => Err(LaunchError::Alloc(e)),
            }
        } else {
            let mut inputs: Vec<u64> = Vec::new();
            inputs.push(a);
            inputs.push(b);
            assert(inputs@ =~= seq![a, b]);
            match self.launch(&inputs, Dtype::F32, &dims) {
                Ok(l) => Ok((plan, l, false)),
                Err(e) => Err(e),
            }
        }
    }
}

/// The output of device work is pending until the next barrier.
pub proof fn launched_is_pending(m: MemV, inputs: Seq<u64>, out: u64)
    requires
        m.gens.ordered(),
        m.gens.encode < u64::MAX,
        !m.gens.sync,
    ensures
        m.encoded(inputs, out).pending(out),
{
    used_all_frame(
        (MemV { gens: m.gens.opened(), ..m }).written(out, m.gens.opened().encode),
        inputs,
        m.gens.opened().encode,
        0,
    );
}

/// Noting uses changes neither tensors nor generations.
proof fn used_all_frame(m: MemV, hs: Seq<u64>, gen: u64, i: nat)
    ensures
        m.used_all(hs, gen, i).tensors == m.tensors,
        m.used_all(hs, gen, i).gens == m.gens,
    decreases hs.len() - i,
{
    if i < hs.len() {
        used_all_frame(m.used(hs[i as int], gen), hs, gen, i + 1);
    }
}

/// Preparing device work leaves every tensor that was there as it is, with its
/// shape, its element type and its buffer, and the output has another buffer.
pub proof fn launch_keeps_tensors(
    m: MemV,
    inputs: Seq<u64>,
    dtype: Dtype,
    dims: Seq<usize>,
    h: u64,
)
    requires
        m.wf(),
        m.alloc_error(dtype, dims) is None,
        m.live(h),
    ensures
        ({
            let (s, l) = m.launch(inputs, dtype, dims);
            &&& s.live(h)
            &&& s.tensors[h] == m.tensors[h]
            &&& l.out.handle != h
            &&& l.out.buffer != m.tensors[h].buffer
            &&& s.tensors[l.out.handle].shape == dims
            &&& s.tensors[l.out.handle].dtype == dtype
        }),
{
    memory_laws::allocated_apart(m, dtype, dims, h);
    let size = crate::runtime::memory::byte_size(dtype, shape::count(dims)) as usize;
    memory_laws::wf_ignores(m, m.noted(size));
    memory_laws::find_buffer_keeps(m.noted(size), size);
    let (s, a) = m.allocate(dtype, dims);
    let g = s.gens.opened();
    used_all_frame((MemV { gens: g, ..s }).written(a.handle, g.encode), inputs, g.encode, 0);
}

} // verus!
