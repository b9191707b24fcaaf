//! Memory operations.

use crate::runtime::counters::Counters;
use crate::runtime::gens::Gens;
use crate::runtime::layout::ShapeError;
use crate::runtime::memory;
use crate::runtime::memory::{
    Alloc, AllocError, DeviceBuffer, MemV, Memory, OverRelease, Tensor,
    DEFAULT_MEM_BUDGET_BYTES,
};
use crate::runtime::memory_laws;
use crate::runtime::pool;
use crate::runtime::pool::{Free, Ledger, Pool, PoolState};
use crate::runtime::shape;
use crate::runtime::shape::element_count;
use crate::runtime::tags::Dtype;
use crate::sorted_map::SortedMap;
use std::collections::HashMap;
use vstd::prelude::*;

verus! {

/// The limit that a configured number of mebibytes stands for.
pub fn mem_budget_from(mb: Option<i64>) -> (r: i64)
    ensures
        r == memory::budget_of(mb),
{
    match mb {
        Some(v) => if v == 0 {
            i64::MAX
        } else if v > 0 {
            v << 20
        } else {
            DEFAULT_MEM_BUDGET_BYTES
        },
        None => DEFAULT_MEM_BUDGET_BYTES,
    }
}

/// A limit in mebibytes is that many times 1048576 bytes, as long as the
/// product can be represented.
pub proof fn budget_in_mebibytes(mb: i64)
    requires
        0 < mb <= 8796093022207,
    ensures
        memory::budget_of(Some(mb)) == mb * 1048576,
{
    assert(mb << 20 == mb * 1048576) by (bit_vector)
        requires
            0 < mb <= 8796093022207,
    ;
}

/// Position of a key in an association list.
pub fn find_key(s: &Vec<(u64, u64)>, k: u64) -> (r: Option<usize>)
    ensures
        match r {
            Some(p) => memory::key_at(s@, k, 0) == Some(p as int) && p < s.len(),
            None => memory::key_at(s@, k, 0) is None,
        },
{
    let mut i: usize = 0;
    while i < s.len()
        invariant
            i <= s.len(),
            memory::key_at(s@, k, 0) == memory::key_at(s@, k, i as nat),
        decreases s.len() - i,
    {
        if s[i].0 == k {
            return Some(i);
        }
        i = i + 1;
    }
    None
}

/// Position of a handle in a list.
pub fn find_handle(s: &Vec<u64>, h: u64) -> (r: Option<usize>)
    ensures
        match r {
            Some(p) => memory::position(s@, h, 0) == Some(p as int) && p < s.len(),
            None => memory::position(s@, h, 0) is None,
        },
{
    let mut i: usize = 0;
    while i < s.len()
        invariant
            i <= s.len(),
            memory::position(s@, h, 0) == memory::position(s@, h, i as nat),
        decreases s.len() - i,
    {
        if s[i] == h {
            return Some(i);
        }
        i = i + 1;
    }
    None
}

impl Memory {
    /// Whether the parts of memory are in order.
    pub open spec fn inv(self) -> bool {
        self@.wf() && self.pool.wf() && self.histogram.wf()
    }

    /// Empty memory.
    pub fn new(sync: bool, histogram_on: bool, budget_mb: Option<i64>) -> (r: Self)
        ensures
            r@ == MemV::start(sync, histogram_on, budget_mb),
            r.inv(),
    {
        let r = Memory {
            tensors: HashMap::new(),
            next: 1,
            buffers: Vec::new(),
            pool: Pool::new(),
            ledger: Ledger { hits: 0, misses: 0, pooled: 0, live: 0, peak: 0 },
            budget: -1,
            budget_mb,
            gens: Gens::new(sync),
            counts: Counters::new(),
            histogram_on,
            histogram: SortedMap::new(),
            leaves: Vec::new(),
            leaf_grad: Vec::new(),
        };
        proof {
            assert(r@ =~= MemV::start(sync, histogram_on, budget_mb));
        }
        r
    }

    /// Whether a handle names a tensor.
    pub fn is_live(&self, h: u64) -> (r: bool)
        ensures
            r == self@.live(h),
    {
        self.tensors.contains_key(&h)
    }

    pub fn tensor(&self, h: u64) -> (r: &Tensor)
        requires
            self@.live(h),
        ensures
            r@ == self@.tensors[h],
    {
        self.tensors.get(&h).unwrap()
    }

    /// Sets the limit; a negative number restores the configured one.
    pub fn malus_set_mem_budget(&mut self, bytes: i64)
        ensures
            final(self)@ == (MemV {
                budget: if bytes < -1 {
                    -1i64
                } else {
                    bytes
                },
                ..old(self)@
            }),
            old(self).inv() ==> final(self).inv(),
    {
        self.budget = if bytes < -1 {
            -1
        } else {
            bytes
        };
        proof {
            if old(self).inv() {
                memory_laws::wf_ignores(old(self)@, self@);
            }
        }
    }

    /// The limit that is in force; computed once.
    pub fn mem_budget_bytes(&mut self) -> (r: i64)
        ensures
            r == old(self)@.limit(),
            final(self)@ == (MemV { budget: r, ..old(self)@ }),
            old(self).inv() ==> final(self).inv(),
    {
        let v: i64 = if self.budget >= 0 {
            self.budget
        } else {
            mem_budget_from(self.budget_mb)
        };
        self.budget = v;
        proof {
            if old(self).inv() {
                memory_laws::wf_ignores(old(self)@, self@);
            }
        }
        v
    }

    /// Pool hits, pool misses, pooled bytes and peak device bytes.
    pub fn malus_pool_stats(&self) -> (r: (i64, i64, i64, i64))
        ensures
            r == (
                self@.ledger.hits,
                self@.ledger.misses,
                self@.ledger.pooled,
                self@.ledger.peak,
            ),
    {
        (self.ledger.hits, self.ledger.misses, self.ledger.pooled, self.ledger.peak)
    }

    /// Bucket sizes in ascending order, each with its number of free buffers.
    pub fn malus_pool_buckets(&self) -> (r: Vec<(usize, usize)>)
        requires
            self.inv(),
        ensures
            memory::lists_pool(r@, self@.pool),
    {
        self.pool.snapshot()
    }

    /// Requested sizes in ascending order, each with its number of requests.
    pub fn malus_alloc_histogram(&self) -> (r: Vec<(u64, u64)>)
        requires
            self.inv(),
        ensures
            memory::lists_requests(r@, self@.histogram),
    {
        let mut out: Vec<(u64, u64)> = Vec::new();
        let mut i: usize = 0;
        while i < self.histogram.entries.len()
            invariant
                i <= self.histogram.entries.len(),
                out@ =~= self.histogram.entries@.take(i as int),
            decreases self.histogram.entries.len() - i,
        {
            out.push(self.histogram.entries[i]);
            i = i + 1;
        }
        proof {
            let e = self.histogram.entries@;
            assert(out@ =~= e);
            assert forall|p: int| 0 <= p < out@.len() implies self@.histogram.contains_key(
                (#[trigger] out@[p]).0,
            ) && self@.histogram[out@[p].0] == out@[p].1 by {
                crate::sorted_map::entry_map_at(e, e.len(), e[p].0);
            }
            assert forall|k: u64| #[trigger] self@.histogram.contains_key(k) implies exists|p: int|
                0 <= p < out@.len() && (#[trigger] out@[p]).0 == k by {
                crate::sorted_map::entry_map_at(e, e.len(), k);
                let w = choose|w: int| 0 <= w < e.len() && (#[trigger] e[w]).0 == k;
                assert(out@[w].0 == k);
            }
        }
        out
    }

    /// Gives all free buffers back to the device and restarts the counts.
    pub fn malus_pool_reset(&mut self)
        requires
            old(self).inv(),
        ensures
            final(self)@ == old(self)@.pool_reset(),
            final(self).inv(),
    {
        let live: i64 = self.ledger.live;
        self.pool = Pool::new();
        self.ledger = Ledger { hits: 0, misses: 0, pooled: 0, live, peak: live };
        let mut i: usize = 0;
        while i < self.buffers.len()
            invariant
                i <= self.buffers.len(),
                self.buffers.len() == old(self).buffers.len(),
                self.pool.wf(),
                self.histogram.wf(),
                (MemV { buffers: old(self)@.buffers, ..self@ }) =~= (MemV {
                    buffers: old(self)@.buffers,
                    ..old(self)@.pool_reset()
                }),
                forall|j: int|
                    0 <= j < i ==> #[trigger] self.buffers@[j] == old(self)@.pool_reset().buffers[j],
                forall|j: int|
                    i <= j < self.buffers.len() ==> #[trigger] self.buffers@[j] == old(
                        self,
                    ).buffers@[j],
            decreases self.buffers.len() - i,
        {
            let b = self.buffers[i];
            if b.aliases == 0 {
                self.buffers.set(i, DeviceBuffer { dropped: true, ..b });
            }
            i = i + 1;
        }
        proof {
            memory_laws::pool_reset_keeps(old(self)@);
            assert(self.buffers@ =~= old(self)@.pool_reset().buffers);
            assert(self@ =~= old(self)@.pool_reset());
        }
    }

    /// Completes all encoded work. Returns whether there is any to commit and
    /// wait for.
    pub fn gpu_barrier(&mut self) -> (r: bool)
        ensures
            final(self)@ == (MemV { gens: old(self)@.gens.flushed(), ..old(self)@ }),
            r == old(self)@.gens.open,
            old(self).inv() ==> final(self).inv(),
    {
        let r = self.gens.gpu_barrier();
        proof {
            if old(self).inv() {
                memory_laws::wf_ignores(old(self)@, self@);
            }
        }
        r
    }

    /// Whether device work that writes a tensor may still be running.
    pub fn tensor_is_pending(&self, h: u64) -> (r: bool)
        requires
            self@.live(h),
        ensures
            r == self@.pending(h),
    {
        let t = self.tensor(h);
        self.gens.is_pending(t.last_write_gen)
    }

    /// Completes all encoded work where a tensor is about to be read that it
    /// writes. Returns whether there is any to commit and wait for.
    pub fn flush_if_pending(&mut self, h: u64) -> (r: bool)
        requires
            h == 0 || old(self)@.live(h),
        ensures
            final(self)@ == (if h != 0 && old(self)@.pending(h) {
                MemV { gens: old(self)@.gens.flushed(), ..old(self)@ }
            } else {
                old(self)@
            }),
            r == (h != 0 && old(self)@.pending(h) && old(self)@.gens.open),
            old(self).inv() ==> final(self).inv(),
    {
        if h != 0 && self.tensor_is_pending(h) {
            self.gpu_barrier()
        } else {
            false
        }
    }

    fn note(&mut self, size: usize)
        requires
            old(self).histogram.wf(),
        ensures
            final(self)@ == old(self)@.noted(size),
            final(self).histogram.wf(),
            final(self).pool == old(self).pool,
    {
        if self.histogram_on {
            let key: u64 = size as u64;
            let n: u64 = match self.histogram.get(key) {
                Some(c) => *c,
                None => 0,
            };
            self.histogram.insert(key, n.wrapping_add(1));
        }
    }

    fn find_buffer(&mut self, size: usize) -> (r: (Option<usize>, bool))
        requires
            old(self).inv(),
            size <= i64::MAX,
        ensures
            (final(self)@, r.0, r.1) == old(self)@.find_buffer(size),
            final(self).inv(),
    {
        proof {
            memory_laws::find_buffer_keeps(self@, size);
        }
        match self.pool.pop(size, self.gens.completed) {
            Some(b) => {
                return (Some(b), false);
            },
            None => {},
        }
        let projected: i64 = self.ledger.live.wrapping_add(self.ledger.pooled).wrapping_add(
            size as i64,
        );
        let limit: i64 = self.mem_budget_bytes();
        if projected > limit && self.pool.has(size) {
            let flush = self.gpu_barrier();
            let found = self.pool.pop(size, self.gens.completed);
            (found, flush)
        } else {
            (None, false)
        }
    }

    fn place(&mut self, dtype: Dtype, dims: &Vec<usize>, len: usize, size: usize, found: Option<
        usize,
    >) -> (r: usize)
        requires
            old(self).pool.wf(),
            old(self).histogram.wf(),
            len == shape::count(dims@),
            old(self).next < u64::MAX,
            size <= i64::MAX,
            found matches Some(b) ==> b < old(self).buffers.len(),
        ensures
            final(self)@ == old(self)@.place(dtype, dims@, size, found),
            final(self).pool.wf(),
            final(self).histogram.wf(),
            r == (match found {
                Some(b) => b,
                None => old(self).buffers.len(),
            }),
    {
        let fresh = DeviceBuffer {
            size,
            aliases: 1,
            state: PoolState { last_use_gen: 0 },
            dropped: false,
        };
        let live: i64 = self.ledger.live.wrapping_add(size as i64);
        let id: usize = match found {
            Some(b) => {
                self.buffers.set(b, fresh);
                self.ledger.hits = self.ledger.hits.wrapping_add(1);
                self.ledger.pooled = self.ledger.pooled.wrapping_sub(size as i64);
                b
            },
            None => {
                let n: usize = self.buffers.len();
                self.buffers.push(fresh);
                self.ledger.misses = self.ledger.misses.wrapping_add(1);
                let total: i64 = live.wrapping_add(self.ledger.pooled);
                if total > self.ledger.peak {
                    self.ledger.peak = total;
                }
                n
            },
        };
        self.ledger.live = live;
        let t = Tensor { dtype, shape: dims.clone(), len, refs: 1, last_write_gen: 0, buffer: id };
        let ghost before = self.tensors@;
        self.tensors.insert(self.next, t);
        self.next = self.next + 1;
        self.counts.alloc_inc();
        proof {
            let f = |t: Tensor| t@;
            assert(before.insert(old(self).next, t).map_values(f) =~= before.map_values(f).insert(
                old(self).next,
                t@,
            ));
            assert(self@ =~= old(self)@.place(dtype, dims@, size, found));
        }
        id
    }

    /// Allocates a tensor of an element type and shape. Its contents are
    /// those of the buffer.
    pub fn alloc_tensor(&mut self, dtype: Dtype, dims: &Vec<usize>) -> (r: Result<
        Alloc,
        AllocError,
    >)
        requires
            old(self).inv(),
        ensures
            final(self).inv(),
            match r {
                Err(e) => old(self)@.alloc_error(dtype, dims@) == Some(e) && final(self)@ == old(
                    self,
                )@,
                Ok(a) => old(self)@.alloc_error(dtype, dims@) is None && (final(self)@, a) == old(
                    self,
                )@.allocate(dtype, dims@),
            },
    {
        match dtype {
            Dtype::F32 | Dtype::I32 | Dtype::I64 => {},
            _ => {
                return Err(AllocError::UnsupportedDtype(dtype));
            },
        }
        proof {
            assert(shape::count(dims@) <= shape::count(dims@) * dtype.size()) by (nonlinear_arith)
                requires
                    dtype.size() >= 1,
            ;
        }
        let len: usize = match element_count(dims) {
            Some(n) => n,
            None => {
                return Err(AllocError::TooLarge);
            },
        };
        let bytes: usize = match len.checked_mul(dtype.element_size()) {
            Some(n) => n,
            None => {
                return Err(AllocError::TooLarge);
            },
        };
        let size: usize = if bytes == 0 {
            1
        } else {
            bytes
        };
        if size as u64 > i64::MAX as u64 || self.buffers.len() == usize::MAX {
            return Err(AllocError::TooLarge);
        }
        if self.next == u64::MAX {
            return Err(AllocError::OutOfHandles);
        }
        let handle: u64 = self.next;
        proof {
            memory_laws::allocate_keeps(self@, dtype, dims@);
        }
        self.note(size);
        proof {
            memory_laws::wf_ignores(old(self)@, self@);
            memory_laws::find_buffer_keeps(self@, size);
        }
        let (found, flush) = self.find_buffer(size);
        let pooled = found.is_some();
        let buffer: usize = self.place(dtype, dims, len, size, found);
        Ok(Alloc { handle, buffer, pooled, flush })
    }

    /// Adds a reference to a tensor.
    pub fn tensor_retain(&mut self, h: u64)
        requires
            old(self).inv(),
            h == 0 || old(self)@.live(h),
        ensures
            final(self).inv(),
            final(self)@ == old(self)@.retain(h),
    {
        if h == 0 {
            return;
        }
        proof {
            memory_laws::retain_keeps(self@, h);
        }
        self.counts.retain_inc();
        let ghost before = self.tensors@;
        match self.tensors.remove(&h) {
            Some(t) => {
                let refs: usize = t.refs.wrapping_add(1);
                let t2 = Tensor { refs, ..t };
                self.tensors.insert(h, t2);
                proof {
                    let f = |t: Tensor| t@;
                    assert(before.remove(h).insert(h, t2).map_values(f) =~= before.map_values(
                        f,
                    ).insert(h, t2@));
                    assert(self@ =~= old(self)@.retain(h));
                }
            },
            None => {},
        }
    }

    fn set_refs(&mut self, h: u64, refs: usize)
        requires
            old(self)@.live(h),
            old(self).pool.wf(),
            old(self).histogram.wf(),
        ensures
            final(self)@ == old(self)@.with_refs(h, refs),
            final(self).pool.wf(),
            final(self).histogram.wf(),
    {
        let ghost before = self.tensors@;
        match self.tensors.remove(&h) {
            Some(t) => {
                let t2 = Tensor { refs, ..t };
                self.tensors.insert(h, t2);
                proof {
                    let f = |t: Tensor| t@;
                    assert(before.remove(h).insert(h, t2).map_values(f) =~= before.map_values(
                        f,
                    ).insert(h, t2@));
                    assert(self@ =~= old(self)@.with_refs(h, refs));
                }
            },
            None => {},
        }
    }

    fn free(&mut self, h: u64)
        requires
            old(self).inv(),
        ensures
            final(self).inv(),
            final(self)@ == old(self)@.free(h),
    {
        proof {
            memory_laws::free_keeps(self@, h);
        }
        let ghost before = self.tensors@;
        match self.tensors.remove(&h) {
            None => {
                assert(self.tensors@ =~= before);
            },
            Some(t) => {
                let id: usize = t.buffer;
                proof {
                    assert(old(self)@.tensors.contains_key(h));
                    assert(old(self)@.tensor_ok(old(self)@.tensors[h]));
                    let f = |t: Tensor| t@;
                    assert(before.remove(h).map_values(f) =~= before.map_values(f).remove(h));
                }
                let b = self.buffers[id];
                if b.aliases <= 1 {
                    proof {
                        assert(b.size <= usize::MAX);
                    }
                    self.buffers.set(id, DeviceBuffer { aliases: 0, ..b });
                    self.ledger.live = self.ledger.live.wrapping_sub(b.size as i64);
                    self.ledger.pooled = self.ledger.pooled.wrapping_add(b.size as i64);
                    self.pool.push(b.size, Free { gen: b.state.last_use_gen, buffer: id });
                } else {
                    self.buffers.set(id, DeviceBuffer { aliases: b.aliases - 1, ..b });
                }
                proof {
                    assert(self@ =~= old(self)@.free(h));
                }
            },
        }
    }

    /// Forgets a leaf. Returns its gradient, where it has one.
    fn forget(&mut self, h: u64) -> (r: Option<u64>)
        requires
            old(self).inv(),
        ensures
            final(self).inv(),
            final(self)@ == old(self)@.forget(h),
            r == memory::value_of(old(self)@.leaf_grad, h),
            r is Some ==> final(self)@.leaf_grad.len() < old(self)@.leaf_grad.len(),
    {
        let grad: Option<u64> = match find_key(&self.leaf_grad, h) {
            Some(p) => {
                let e = self.leaf_grad.remove(p);
                Some(e.1)
            },
            None => None,
        };
        match find_handle(&self.leaves, h) {
            Some(p) => {
                self.leaves.remove(p);
            },
            None => {},
        }
        proof {
            memory_laws::wf_ignores(old(self)@, self@);
        }
        grad
    }

    /// Removes a reference from a tensor. With the last one, the gradient
    /// that is kept for it is released, and its buffer becomes free.
    pub fn tensor_release(&mut self, h: u64) -> (r: Result<(), OverRelease>)
        requires
            old(self).inv(),
        ensures
            final(self).inv(),
            final(self)@ == old(self)@.release(h).0,
            match r {
                Ok(_) => old(self)@.release(h).1 is None,
                Err(e) => old(self)@.release(h).1 == Some(e.0),
            },
        decreases old(self)@.leaf_grad.len(),
    {
        if h == 0 {
            return Ok(());
        }
        self.counts.release_inc();
        proof {
            memory_laws::wf_ignores(old(self)@, self@);
        }
        let refs: usize = match self.tensors.get(&h) {
            Some(t) => t.refs,
            None => {
                return Err(OverRelease(h));
            },
        };
        if refs == 0 {
            return Err(OverRelease(h));
        }
        proof {
            memory_laws::with_refs_keeps(self@, h, (refs - 1) as usize);
        }
        self.set_refs(h, refs - 1);
        if refs > 1 {
            return Ok(());
        }
        match self.forget(h) {
            None => {},
            Some(g) => {
                match self.tensor_release(g) {
                    Ok(_) => {},
                    Err(e) => {
                        return Err(e);
                    },
                }
            },
        }
        self.free(h);
        Ok(())
    }

    /// Removes a reference from a tensor.
    pub fn tensor_free(&mut self, h: u64) -> (r: Result<(), OverRelease>)
        requires
            old(self).inv(),
        ensures
            final(self).inv(),
            final(self)@ == old(self)@.release(h).0,
            match r {
                Ok(_) => old(self)@.release(h).1 is None,
                Err(e) => old(self)@.release(h).1 == Some(e.0),
            },
    {
        self.tensor_release(h)
    }

    /// Removes a reference from each tensor of a list.
    pub fn release_all(&mut self, hs: &Vec<u64>) -> (r: Result<(), OverRelease>)
        requires
            old(self).inv(),
        ensures
            final(self).inv(),
            final(self)@ == old(self)@.release_all(hs@, 0).0,
            match r {
                Ok(_) => old(self)@.release_all(hs@, 0).1 is None,
                Err(e) => old(self)@.release_all(hs@, 0).1 == Some(e.0),
            },
    {
        let mut i: usize = 0;
        while i < hs.len()
            invariant
                i <= hs.len(),
                self.inv(),
                old(self)@.release_all(hs@, 0) == self@.release_all(hs@, i as nat),
            decreases hs.len() - i,
        {
            match self.tensor_release(hs[i]) {
                Ok(_) => {},
                Err(e) => {
                    return Err(e);
                },
            }
            i = i + 1;
        }
        Ok(())
    }

    /// Notes a use of a tensor's buffer.
    pub fn stamp_use(&mut self, h: u64, gen: u64)
        requires
            old(self).inv(),
            old(self)@.live(h),
        ensures
            final(self).inv(),
            final(self)@ == old(self)@.used(h, gen),
    {
        proof {
            memory_laws::used_keeps(self@, h, gen);
            assert(self@.tensor_ok(self@.tensors[h]));
        }
        let id: usize = self.tensor(h).buffer;
        let b = self.buffers[id];
        self.buffers.set(id, DeviceBuffer { state: PoolState { last_use_gen: gen }, ..b });
        proof {
            assert(self@ =~= old(self)@.used(h, gen));
        }
    }

    /// Notes that a tensor is written by device work.
    pub fn stamp_write(&mut self, h: u64, gen: u64)
        requires
            old(self).inv(),
            old(self)@.live(h),
        ensures
            final(self).inv(),
            final(self)@ == old(self)@.written(h, gen),
    {
        proof {
            memory_laws::written_keeps(self@, h, gen);
        }
        let ghost before = self.tensors@;
        match self.tensors.remove(&h) {
            Some(t) => {
                let t2 = Tensor { last_write_gen: gen, ..t };
                self.tensors.insert(h, t2);
                proof {
                    let f = |t: Tensor| t@;
                    assert(before.remove(h).insert(h, t2).map_values(f) =~= before.map_values(
                        f,
                    ).insert(h, t2@));
                    assert(self@ =~= old(self)@.written(h, gen));
                }
            },
            None => {},
        }
    }

    /// Makes a second tensor on the buffer of a tensor, with another shape of
    /// as many elements. No data moves.
    pub fn tensor_reshape(&mut self, h: u64, dims: &Vec<usize>) -> (r: Result<u64, ShapeError>)
        requires
            old(self).inv(),
            old(self)@.live(h),
        ensures
            final(self).inv(),
            match r {
                Ok(n) => {
                    &&& shape::count(dims@) == old(self)@.tensors[h].len
                    &&& n == old(self)@.next
                    &&& final(self)@ == old(self)@.alias(h, dims@)
                },
                Err(e) => {
                    &&& final(self)@ == old(self)@
                    &&& if shape::count(dims@) > usize::MAX {
                        e == ShapeError::TooLarge
                    } else if shape::count(dims@) != old(self)@.tensors[h].len {
                        e == (ShapeError::Reshape {
                            have: old(self)@.tensors[h].len,
                            want: shape::count(dims@) as usize,
                        })
                    } else {
                        e == ShapeError::TooLarge && (old(self)@.next == u64::MAX || old(
                            self,
                        )@.buffers[old(self)@.tensors[h].buffer as int].aliases == u64::MAX)
                    }
                },
            },
    {
        let want: usize = match element_count(dims) {
            Some(n) => n,
            None => {
                return Err(ShapeError::TooLarge);
            },
        };
        let ghost v = self@.tensors[h];
        proof {
            assert(self@.tensor_ok(v));
        }
        let t = self.tensor(h);
        let have: usize = t.len;
        if want != have {
            return Err(ShapeError::Reshape { have, want });
        }
        let id: usize = t.buffer;
        let b = self.buffers[id];
        if self.next == u64::MAX || b.aliases == u64::MAX {
            return Err(ShapeError::TooLarge);
        }
        let t2 = Tensor {
            dtype: t.dtype,
            shape: dims.clone(),
            len: have,
            refs: 1,
            last_write_gen: t.last_write_gen,
            buffer: id,
        };
        proof {
            memory_laws::alias_keeps(self@, h, dims@);
        }
        let n: u64 = self.next;
        let ghost before = self.tensors@;
        self.tensors.insert(n, t2);
        self.next = n + 1;
        self.buffers.set(id, DeviceBuffer { aliases: b.aliases + 1, ..b });
        proof {
            let f = |t: Tensor| t@;
            assert(before.insert(n, t2).map_values(f) =~= before.map_values(f).insert(n, t2@));
            assert(self@ =~= old(self)@.alias(h, dims@));
        }
        Ok(n)
    }

    /// Number of registered leaves and of gradients that are kept for them.
    pub fn registry_lens(&self) -> (r: (usize, usize))
        ensures
            r.0 == self@.leaves.len(),
            r.1 == self@.leaf_grad.len(),
    {
        (self.leaves.len(), self.leaf_grad.len())
    }
}

} // verus!
