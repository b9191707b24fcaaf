//! Tensors in device memory: handles with reference counts, buffers that
//! tensors may share, and the registry of gradient leaves that a release has
//! to keep in step.

use crate::runtime::counters::Counters;
use crate::runtime::gens::Gens;
use crate::runtime::pool;
use crate::runtime::pool::{Buckets, Free, Ledger, Pool, PoolState};
use crate::runtime::shape;
use crate::runtime::tags::Dtype;
use crate::sorted_map::SortedMap;
use std::collections::HashMap;
use vstd::prelude::*;

verus! {

pub const DEFAULT_MEM_BUDGET_BYTES: i64 = 8589934592;

/// A tensor: its type and shape, its reference count, the generation that
/// wrote it last, and the number of its buffer.
#[derive(Debug)]
pub struct Tensor {
    pub dtype: Dtype,
    pub shape: Vec<usize>,
    pub len: usize,
    pub refs: usize,
    pub last_write_gen: u64,
    pub buffer: usize,
}

/// Model of [`Tensor`].
#[verifier::ext_equal]
pub struct TensorV {
    pub dtype: Dtype,
    pub shape: Seq<usize>,
    pub len: usize,
    pub refs: usize,
    pub last_write_gen: u64,
    pub buffer: usize,
}

impl View for Tensor {
    type V = TensorV;

    open spec fn view(&self) -> TensorV {
        TensorV {
            dtype: self.dtype,
            shape: self.shape@,
            len: self.len,
            refs: self.refs,
            last_write_gen: self.last_write_gen,
            buffer: self.buffer,
        }
    }
}

/// A device buffer: its size, how many tensors use it, its last use, and
/// whether it was given back to the device.
#[derive(Clone, Copy, Debug, PartialEq, Eq, Structural)]
pub struct DeviceBuffer {
    pub size: usize,
    pub aliases: u64,
    pub state: PoolState,
    pub dropped: bool,
}

/// Why an allocation is refused.
#[derive(Clone, Copy, Debug, PartialEq, Eq, Structural)]
pub enum AllocError {
    /// No element type has this number.
    UnknownDtype(i32),
    /// Tensors of this element type are not supported.
    UnsupportedDtype(Dtype),
    /// More bytes than can be addressed.
    TooLarge,
    /// Every handle has been used.
    OutOfHandles,
}

/// The outcome of an allocation.
#[derive(Clone, Copy, Debug, PartialEq, Eq, Structural)]
pub struct Alloc {
    pub handle: u64,
    pub buffer: usize,
    /// Whether the buffer was used before, so that it holds old data.
    pub pooled: bool,
    /// Whether encoded work has to be committed and waited for first.
    pub flush: bool,
}

/// A release of a handle that has no reference left.
#[derive(Clone, Copy, Debug, PartialEq, Eq, Structural)]
pub struct OverRelease(pub u64);

#[derive(Debug)]
pub struct Memory {
    pub tensors: HashMap<u64, Tensor>,
    pub next: u64,
    pub buffers: Vec<DeviceBuffer>,
    pub pool: Pool,
    pub ledger: Ledger,
    /// Limit on live and pooled bytes; negative while not set.
    pub budget: i64,
    /// The configured limit in mebibytes, if any.
    pub budget_mb: Option<i64>,
    pub gens: Gens,
    pub counts: Counters,
    pub histogram_on: bool,
    pub histogram: SortedMap<u64>,
    /// Handles whose gradients are kept, in the order of registration.
    pub leaves: Vec<u64>,
    /// Leaves with a gradient, and the gradient.
    pub leaf_grad: Vec<(u64, u64)>,
}

/// Model of [`Memory`].
#[verifier::ext_equal]
pub struct MemV {
    pub tensors: Map<u64, TensorV>,
    pub next: u64,
    pub buffers: Seq<DeviceBuffer>,
    pub pool: Buckets,
    pub ledger: Ledger,
    pub budget: i64,
    pub budget_mb: Option<i64>,
    pub gens: Gens,
    pub counts: Counters,
    pub histogram_on: bool,
    pub histogram: Map<u64, u64>,
    pub leaves: Seq<u64>,
    pub leaf_grad: Seq<(u64, u64)>,
}

impl View for Memory {
    type V = MemV;

    open spec fn view(&self) -> MemV {
        MemV {
            tensors: self.tensors@.map_values(|t: Tensor| t@),
            next: self.next,
            buffers: self.buffers@,
            pool: self.pool@,
            ledger: self.ledger,
            budget: self.budget,
            budget_mb: self.budget_mb,
            gens: self.gens,
            counts: self.counts,
            histogram_on: self.histogram_on,
            histogram: self.histogram@,
            leaves: self.leaves@,
            leaf_grad: self.leaf_grad@,
        }
    }
}

/// Bytes of a number of elements; an empty tensor still gets a byte.
pub open spec fn byte_size(dtype: Dtype, len: nat) -> nat {
    if len * dtype.size() == 0 {
        1
    } else {
        len * dtype.size()
    }
}

pub open spec fn supported(dtype: Dtype) -> bool {
    dtype == Dtype::F32 || dtype == Dtype::I32 || dtype == Dtype::I64
}

/// The limit that a configured number of mebibytes stands for: zero is no
/// limit, and without a positive number the default holds.
pub open spec fn budget_of(mb: Option<i64>) -> i64 {
    match mb {
        Some(v) => if v == 0 {
            i64::MAX
        } else if v > 0 {
            v << 20
        } else {
            DEFAULT_MEM_BUDGET_BYTES
        },
        None => DEFAULT_MEM_BUDGET_BYTES,
    }
}

/// Position of the first entry with a key, from `i` on.
pub open spec fn key_at(s: Seq<(u64, u64)>, k: u64, i: nat) -> Option<int>
    decreases s.len() - i,
{
    if i >= s.len() {
        None
    } else if s[i as int].0 == k {
        Some(i as int)
    } else {
        key_at(s, k, i + 1)
    }
}

/// Position of the first occurrence of a handle, from `i` on.
pub open spec fn position(s: Seq<u64>, h: u64, i: nat) -> Option<int>
    decreases s.len() - i,
{
    if i >= s.len() {
        None
    } else if s[i as int] == h {
        Some(i as int)
    } else {
        position(s, h, i + 1)
    }
}

pub proof fn key_at_bounds(s: Seq<(u64, u64)>, k: u64, i: nat)
    ensures
        match key_at(s, k, i) {
            Some(p) => i <= p < s.len() && s[p].0 == k,
            None => forall|j: int| i <= j < s.len() ==> (#[trigger] s[j]).0 != k,
        },
    decreases s.len() - i,
{
    if i < s.len() && s[i as int].0 != k {
        key_at_bounds(s, k, i + 1);
    }
}

pub proof fn position_bounds(s: Seq<u64>, h: u64, i: nat)
    ensures
        match position(s, h, i) {
            Some(p) => i <= p < s.len() && s[p] == h,
            None => forall|j: int| i <= j < s.len() ==> #[trigger] s[j] != h,
        },
    decreases s.len() - i,
{
    if i < s.len() && s[i as int] != h {
        position_bounds(s, h, i + 1);
    }
}

/// The list without the first entry that has a key.
pub open spec fn without_key(s: Seq<(u64, u64)>, k: u64) -> Seq<(u64, u64)> {
    match key_at(s, k, 0) {
        Some(p) => s.remove(p),
        None => s,
    }
}

pub open spec fn value_of(s: Seq<(u64, u64)>, k: u64) -> Option<u64> {
    match key_at(s, k, 0) {
        Some(p) => Some(s[p].1),
        None => None,
    }
}

pub open spec fn without(s: Seq<u64>, h: u64) -> Seq<u64> {
    match position(s, h, 0) {
        Some(p) => s.remove(p),
        None => s,
    }
}

/// Whether a list gives the sizes of all buckets in ascending order, each with
/// its number of free buffers.
pub open spec fn lists_pool(r: Seq<(usize, usize)>, pool: Buckets) -> bool {
    &&& forall|i: int, j: int| 0 <= i < j < r.len() ==> (#[trigger] r[i]).0 < (#[trigger] r[j]).0
    &&& forall|i: int|
        0 <= i < r.len() ==> pool.contains_key((#[trigger] r[i]).0) && pool[r[i].0].len() == r[i].1
    &&& forall|k: usize| #[trigger]
        pool.contains_key(k) ==> exists|i: int| 0 <= i < r.len() && (#[trigger] r[i]).0 == k
}

/// Whether a list gives all requested sizes in ascending order, each with its
/// number of requests.
pub open spec fn lists_requests(r: Seq<(u64, u64)>, histogram: Map<u64, u64>) -> bool {
    &&& forall|i: int, j: int| 0 <= i < j < r.len() ==> (#[trigger] r[i]).0 < (#[trigger] r[j]).0
    &&& forall|i: int|
        0 <= i < r.len() ==> histogram.contains_key((#[trigger] r[i]).0) && histogram[r[i].0]
            == r[i].1
    &&& forall|k: u64| #[trigger]
        histogram.contains_key(k) ==> exists|i: int| 0 <= i < r.len() && (#[trigger] r[i]).0 == k
}

/// Number of tensors that use a buffer.
pub open spec fn users(t: Map<u64, TensorV>, b: int) -> nat {
    t.dom().filter(|h: u64| t[h].buffer == b).len()
}

impl MemV {
    pub open spec fn live(self, h: u64) -> bool {
        self.tensors.contains_key(h)
    }

    /// What always holds: handles are used once and never zero; every tensor
    /// has as many elements as its shape says and a buffer of its size that
    /// knows its users; free buffers have none, and none is free twice.
    pub open spec fn wf(self) -> bool {
        &&& self.next > 0
        &&& self.tensors.dom().finite()
        &&& forall|h: u64| #[trigger] self.tensors.contains_key(h) ==> 0 < h < self.next
        &&& forall|h: u64| #[trigger]
            self.tensors.contains_key(h) ==> self.tensor_ok(self.tensors[h])
        &&& forall|b: int|
            0 <= b < self.buffers.len() ==> (#[trigger] self.buffers[b]).aliases == users(
                self.tensors,
                b,
            )
        &&& forall|size: usize, i: int|
            self.pool.contains_key(size) && 0 <= i < self.pool[size].len() ==> self.free_ok(
                size,
                #[trigger] self.pool[size][i],
            )
        &&& forall|size: usize, i: int, j: int|
            self.pool.contains_key(size) && 0 <= i < j < self.pool[size].len() ==> (
            #[trigger] self.pool[size][i]).buffer != (#[trigger] self.pool[size][j]).buffer
    }

    pub open spec fn tensor_ok(self, t: TensorV) -> bool {
        &&& t.buffer < self.buffers.len()
        &&& t.len == shape::count(t.shape)
        &&& self.buffers[t.buffer as int].size == byte_size(t.dtype, t.len as nat)
        &&& !self.buffers[t.buffer as int].dropped
    }

    pub open spec fn free_ok(self, size: usize, f: Free) -> bool {
        &&& f.buffer < self.buffers.len()
        &&& self.buffers[f.buffer as int].size == size
        &&& self.buffers[f.buffer as int].aliases == 0
        &&& !self.buffers[f.buffer as int].dropped
    }

    pub open spec fn start(sync: bool, histogram_on: bool, budget_mb: Option<i64>) -> MemV {
        MemV {
            tensors: Map::empty(),
            next: 1,
            buffers: Seq::empty(),
            pool: Map::empty(),
            ledger: Ledger { hits: 0, misses: 0, pooled: 0, live: 0, peak: 0 },
            budget: -1i64,
            budget_mb,
            gens: Gens::start(sync),
            counts: Counters::zero(),
            histogram_on,
            histogram: Map::empty(),
            leaves: Seq::empty(),
            leaf_grad: Seq::empty(),
        }
    }

    /// The limit that is in force.
    pub open spec fn limit(self) -> i64 {
        if self.budget >= 0 {
            self.budget
        } else {
            budget_of(self.budget_mb)
        }
    }

    /// Device bytes after another allocation.
    pub open spec fn projected(self, size: usize) -> i64 {
        self.ledger.live.wrapping_add(self.ledger.pooled).wrapping_add(size as i64)
    }

    pub open spec fn noted(self, size: usize) -> MemV {
        if self.histogram_on {
            let old_count = if self.histogram.contains_key(size as u64) {
                self.histogram[size as u64]
            } else {
                0
            };
            MemV {
                histogram: self.histogram.insert(size as u64, old_count.wrapping_add(1)),
                ..self
            }
        } else {
            self
        }
    }

    /// Gives a tensor a free buffer, or a new one.
    pub open spec fn place(
        self,
        dtype: Dtype,
        dims: Seq<usize>,
        size: usize,
        found: Option<usize>,
    ) -> MemV {
        let fresh = DeviceBuffer {
            size,
            aliases: 1,
            state: PoolState { last_use_gen: 0 },
            dropped: false,
        };
        let live = self.ledger.live.wrapping_add(size as i64);
        let (id, buffers, ledger) = match found {
            Some(b) => (
                b,
                self.buffers.update(b as int, fresh),
                Ledger {
                    hits: self.ledger.hits.wrapping_add(1),
                    pooled: self.ledger.pooled.wrapping_sub(size as i64),
                    live,
                    ..self.ledger
                },
            ),
            None => {
                let total = live.wrapping_add(self.ledger.pooled);
                (
                    self.buffers.len() as usize,
                    self.buffers.push(fresh),
                    Ledger {
                        misses: self.ledger.misses.wrapping_add(1),
                        live,
                        peak: if total > self.ledger.peak {
                            total
                        } else {
                            self.ledger.peak
                        },
                        ..self.ledger
                    },
                )
            },
        };
        MemV {
            tensors: self.tensors.insert(
                self.next,
                TensorV {
                    dtype,
                    shape: dims,
                    len: shape::count(dims) as usize,
                    refs: 1,
                    last_write_gen: 0,
                    buffer: id,
                },
            ),
            next: (self.next + 1) as u64,
            buffers,
            ledger,
            counts: self.counts.allocated(),
            ..self
        }
    }

    /// Finds a buffer for a request: a free one whose last use has completed;
    /// where there is none, and the request would exceed the limit while
    /// unfinished buffers of the size wait, one that a barrier makes free.
    /// Returns also whether a barrier has to be carried out.
    pub open spec fn find_buffer(self, size: usize) -> (MemV, Option<usize>, bool) {
        let (p1, got1) = pool::popped(self.pool, size, self.gens.completed);
        if got1 is Some {
            (MemV { pool: p1, ..self }, got1, false)
        } else {
            let s = MemV { budget: self.limit(), ..self };
            if s.projected(size) > self.limit() && pool::has_free(self.pool, size) {
                let s2 = MemV { gens: s.gens.flushed(), ..s };
                let (p2, got2) = pool::popped(s2.pool, size, s2.gens.completed);
                (MemV { pool: p2, ..s2 }, got2, self.gens.open)
            } else {
                (s, None, false)
            }
        }
    }

    /// Allocates a tensor.
    pub open spec fn allocate(self, dtype: Dtype, dims: Seq<usize>) -> (MemV, Alloc) {
        let size = byte_size(dtype, shape::count(dims)) as usize;
        let (s, found, flush) = self.noted(size).find_buffer(size);
        (
            s.place(dtype, dims, size, found),
            Alloc {
                handle: self.next,
                buffer: match found {
                    Some(b) => b,
                    None => self.buffers.len() as usize,
                },
                pooled: found is Some,
                flush,
            },
        )
    }

    /// Why an allocation is refused, if it is.
    pub open spec fn alloc_error(self, dtype: Dtype, dims: Seq<usize>) -> Option<AllocError> {
        if !supported(dtype) {
            Some(AllocError::UnsupportedDtype(dtype))
        } else if byte_size(dtype, shape::count(dims)) > i64::MAX || byte_size(
            dtype,
            shape::count(dims),
        ) > usize::MAX || self.buffers.len() >= usize::MAX {
            Some(AllocError::TooLarge)
        } else if self.next == u64::MAX {
            Some(AllocError::OutOfHandles)
        } else {
            None
        }
    }

    /// Adds a reference.
    pub open spec fn retain(self, h: u64) -> MemV {
        if h == 0 {
            self
        } else {
            MemV {
                counts: self.counts.retained(),
                tensors: self.tensors.insert(
                    h,
                    TensorV { refs: self.tensors[h].refs.wrapping_add(1), ..self.tensors[h] },
                ),
                ..self
            }
        }
    }

    /// Removes a tensor. Its buffer becomes free with its last user.
    pub open spec fn free(self, h: u64) -> MemV {
        if !self.tensors.contains_key(h) {
            self
        } else {
            let t = self.tensors[h];
            let b = self.buffers[t.buffer as int];
            let gone = self.tensors.remove(h);
            if b.aliases <= 1 {
                MemV {
                    tensors: gone,
                    buffers: self.buffers.update(
                        t.buffer as int,
                        DeviceBuffer { aliases: 0, ..b },
                    ),
                    ledger: Ledger {
                        live: self.ledger.live.wrapping_sub(b.size as i64),
                        pooled: self.ledger.pooled.wrapping_add(b.size as i64),
                        ..self.ledger
                    },
                    pool: pool::pushed(
                        self.pool,
                        b.size,
                        Free { gen: b.state.last_use_gen, buffer: t.buffer },
                    ),
                    ..self
                }
            } else {
                MemV {
                    tensors: gone,
                    buffers: self.buffers.update(
                        t.buffer as int,
                        DeviceBuffer { aliases: (b.aliases - 1) as u64, ..b },
                    ),
                    ..self
                }
            }
        }
    }

    /// Forgets a leaf and its gradient.
    pub open spec fn forget(self, h: u64) -> MemV {
        MemV {
            leaves: without(self.leaves, h),
            leaf_grad: without_key(self.leaf_grad, h),
            ..self
        }
    }

    pub open spec fn with_refs(self, h: u64, refs: usize) -> MemV {
        MemV {
            tensors: self.tensors.insert(h, TensorV { refs, ..self.tensors[h] }),
            ..self
        }
    }

    /// Removes a reference. With the last one, the gradient that the registry
    /// keeps for the tensor is released first, and then the tensor goes.
    /// Returns a handle that had no reference left, where one was released.
    pub open spec fn release(self, h: u64) -> (MemV, Option<u64>)
        decreases self.leaf_grad.len(),
    {
        let s = MemV { counts: self.counts.released(), ..self };
        if h == 0 {
            (self, None)
        } else if !self.live(h) || self.tensors[h].refs == 0 {
            (s, Some(h))
        } else if self.tensors[h].refs > 1 {
            (s.with_refs(h, (self.tensors[h].refs - 1) as usize), None)
        } else {
            let s1 = s.with_refs(h, 0).forget(h);
            match value_of(self.leaf_grad, h) {
                None => (s1.free(h), None),
                Some(g) => {
                    proof {
                        key_at_bounds(self.leaf_grad, h, 0);
                    }
                    match s1.release(g) {
                        (s2, Some(bad)) => (s2, Some(bad)),
                        (s2, None) => (s2.free(h), None),
                    }
                },
            }
        }
    }

    /// Removes a reference from each handle, from position `i` on, up to the
    /// first that has none left.
    pub open spec fn release_all(self, hs: Seq<u64>, i: nat) -> (MemV, Option<u64>)
        decreases hs.len() - i,
    {
        if i >= hs.len() {
            (self, None)
        } else {
            match self.release(hs[i as int]) {
                (s, Some(bad)) => (s, Some(bad)),
                (s, None) => s.release_all(hs, i + 1),
            }
        }
    }

    /// Notes a use of a tensor's buffer.
    pub open spec fn used(self, h: u64, gen: u64) -> MemV {
        let b = self.tensors[h].buffer as int;
        MemV {
            buffers: self.buffers.update(
                b,
                DeviceBuffer { state: PoolState { last_use_gen: gen }, ..self.buffers[b] },
            ),
            ..self
        }
    }

    /// Notes a use of each tensor's buffer, from position `i` on.
    pub open spec fn used_all(self, hs: Seq<u64>, gen: u64, i: nat) -> MemV
        decreases hs.len() - i,
    {
        if i >= hs.len() {
            self
        } else {
            self.used(hs[i as int], gen).used_all(hs, gen, i + 1)
        }
    }

    /// Notes that a tensor is written by device work.
    pub open spec fn written(self, h: u64, gen: u64) -> MemV {
        MemV {
            tensors: self.tensors.insert(
                h,
                TensorV { last_write_gen: gen, ..self.tensors[h] },
            ),
            ..self
        }
    }

    /// A second tensor on the buffer of `h`, with another shape.
    pub open spec fn alias(self, h: u64, dims: Seq<usize>) -> MemV {
        let t = self.tensors[h];
        let b = self.buffers[t.buffer as int];
        MemV {
            tensors: self.tensors.insert(self.next, TensorV { shape: dims, refs: 1, ..t }),
            next: (self.next + 1) as u64,
            buffers: self.buffers.update(
                t.buffer as int,
                DeviceBuffer { aliases: (b.aliases + 1) as u64, ..b },
            ),
            ..self
        }
    }

    /// Whether device work that writes a tensor may still be running.
    pub open spec fn pending(self, h: u64) -> bool {
        self.gens.pending(self.tensors[h].last_write_gen)
    }

    /// Gives all free buffers back to the device and restarts the counts.
    pub open spec fn pool_reset(self) -> MemV {
        MemV {
            pool: Map::empty(),
            buffers: self.buffers.map_values(
                |b: DeviceBuffer|
                    if b.aliases == 0 {
                        DeviceBuffer { dropped: true, ..b }
                    } else {
                        b
                    },
            ),
            ledger: Ledger {
                hits: 0,
                misses: 0,
                pooled: 0,
                live: self.ledger.live,
                peak: self.ledger.live,
            },
            ..self
        }
    }
}

} // verus!
