//! What every memory operation keeps.

use crate::runtime::memory;
use crate::runtime::memory::{DeviceBuffer, MemV, TensorV};
use crate::runtime::pool;
use crate::runtime::shape;
use crate::runtime::tags::Dtype;
use vstd::prelude::*;

verus! {

proof fn users_insert(t: Map<u64, TensorV>, h: u64, v: TensorV, b: int)
    requires
        t.dom().finite(),
        !t.contains_key(h),
    ensures
        memory::users(t.insert(h, v), b) == memory::users(t, b) + (if v.buffer == b {
            1nat
        } else {
            0nat
        }),
{
    let t2 = t.insert(h, v);
    let a = t.dom().filter(|x: u64| t[x].buffer == b);
    let c = t2.dom().filter(|x: u64| t2[x].buffer == b);
    if v.buffer == b {
        assert(c =~= a.insert(h));
    } else {
        assert(c =~= a);
    }
}

pub proof fn users_remove(t: Map<u64, TensorV>, h: u64, b: int)
    requires
        t.dom().finite(),
        t.contains_key(h),
    ensures
        memory::users(t.remove(h), b) + (if t[h].buffer == b {
            1nat
        } else {
            0nat
        }) == memory::users(t, b),
{
    let t2 = t.remove(h);
    let a = t.dom().filter(|x: u64| t[x].buffer == b);
    let c = t2.dom().filter(|x: u64| t2[x].buffer == b);
    if t[h].buffer == b {
        assert(a =~= c.insert(h));
    } else {
        assert(c =~= a);
    }
}

proof fn users_update(t: Map<u64, TensorV>, h: u64, v: TensorV, b: int)
    requires
        t.contains_key(h),
        v.buffer == t[h].buffer,
    ensures
        memory::users(t.insert(h, v), b) == memory::users(t, b),
{
    let t2 = t.insert(h, v);
    let a = t.dom().filter(|x: u64| t[x].buffer == b);
    let c = t2.dom().filter(|x: u64| t2[x].buffer == b);
    assert(c =~= a);
}

proof fn no_users(t: Map<u64, TensorV>, b: int)
    requires
        forall|h: u64| #[trigger] t.contains_key(h) ==> t[h].buffer != b,
    ensures
        memory::users(t, b) == 0,
{
    assert(t.dom().filter(|x: u64| t[x].buffer == b) =~= Set::empty());
}

/// A buffer without users is used by no tensor.
pub proof fn unused_buffer(t: Map<u64, TensorV>, b: int, h: u64)
    requires
        t.dom().finite(),
        memory::users(t, b) == 0,
        t.contains_key(h),
    ensures
        t[h].buffer != b,
{
    let a = t.dom().filter(|x: u64| t[x].buffer == b);
    if t[h].buffer == b {
        assert(a.contains(h));
        assert(a.len() > 0) by {
            if a.len() == 0 {
                assert(a =~= Set::empty());
            }
        }
    }
}

/// Taking a buffer from the pool leaves the rest of it in order, and no other
/// entry names the buffer.
proof fn popped_keeps(m: MemV, size: usize, completed: u64)
    requires
        m.wf(),
    ensures
        (MemV { pool: pool::popped(m.pool, size, completed).0, ..m }).wf(),
        pool::popped(m.pool, size, completed).1 matches Some(b) ==> {
            &&& b < m.buffers.len()
            &&& m.buffers[b as int].size == size
            &&& m.buffers[b as int].aliases == 0
            &&& !m.buffers[b as int].dropped
            &&& forall|k: usize, i: int|
                pool::popped(m.pool, size, completed).0.contains_key(k) && 0 <= i < pool::popped(
                    m.pool,
                    size,
                    completed,
                ).0[k].len() ==> (#[trigger] pool::popped(m.pool, size, completed).0[k][i]).buffer
                    != b
        },
{
    let (p, got) = pool::popped(m.pool, size, completed);
    let m2 = MemV { pool: p, ..m };
    if got is Some {
        let f = m.pool[size];
        pool::first_done_finds(f, completed, 0);
        let k = pool::first_done(f, completed, 0)->0;
        assert(m.free_ok(size, f[k]));
        assert forall|s: usize, i: int| p.contains_key(s) && 0 <= i < p[s].len() implies m2.free_ok(
            s,
            #[trigger] p[s][i],
        ) && p[s][i].buffer != f[k].buffer by {
            if s == size {
                let j = if i < k {
                    i
                } else {
                    i + 1
                };
                assert(p[s][i] == f[j]);
                assert(m.free_ok(size, m.pool[size][j]));
                if j < k {
                    assert(m.pool[size][j].buffer != m.pool[size][k].buffer);
                } else {
                    assert(m.pool[size][k].buffer != m.pool[size][j].buffer);
                }
            } else {
                assert(m.free_ok(s, m.pool[s][i]));
            }
        }
        assert forall|s: usize, i: int, j: int|
            p.contains_key(s) && 0 <= i < j < p[s].len() implies (#[trigger] p[s][i]).buffer != (
        #[trigger] p[s][j]).buffer by {
            if s == size {
                let i2 = if i < k {
                    i
                } else {
                    i + 1
                };
                let j2 = if j < k {
                    j
                } else {
                    j + 1
                };
                assert(p[s][i] == f[i2]);
                assert(p[s][j] == f[j2]);
                assert(m.pool[size][i2].buffer != m.pool[size][j2].buffer);
            } else {
                assert(m.pool[s][i].buffer != m.pool[s][j].buffer);
            }
        }
    } else {
        assert(p == m.pool);
    }
}

proof fn place_keeps(m: MemV, dtype: Dtype, dims: Seq<usize>, size: usize, found: Option<usize>)
    requires
        m.wf(),
        m.next < u64::MAX,
        m.buffers.len() < usize::MAX,
        size == memory::byte_size(dtype, shape::count(dims)),
        shape::count(dims) <= usize::MAX,
        found matches Some(b) ==> {
            &&& b < m.buffers.len()
            &&& m.buffers[b as int].size == size
            &&& m.buffers[b as int].aliases == 0
            &&& forall|k: usize, i: int|
                m.pool.contains_key(k) && 0 <= i < m.pool[k].len() ==> (
                #[trigger] m.pool[k][i]).buffer != b
        },
    ensures
        m.place(dtype, dims, size, found).wf(),
{
    let r = m.place(dtype, dims, size, found);
    let v = r.tensors[m.next];
    let id = v.buffer as int;
    assert(!m.tensors.contains_key(m.next));
    assert forall|h: u64| #[trigger] r.tensors.contains_key(h) implies 0 < h < r.next
        && r.tensor_ok(r.tensors[h]) by {
        if h != m.next {
            assert(m.tensors.contains_key(h));
            assert(m.tensor_ok(m.tensors[h]));
            if found is Some && m.tensors[h].buffer == id {
                unused_buffer(m.tensors, id, h);
            }
        }
    }
    assert forall|b: int| 0 <= b < r.buffers.len() implies (#[trigger] r.buffers[b]).aliases
        == memory::users(r.tensors, b) by {
        users_insert(m.tensors, m.next, v, b);
        if b < m.buffers.len() {
            assert(m.buffers[b].aliases == memory::users(m.tensors, b));
        } else {
            assert forall|h: u64| #[trigger] m.tensors.contains_key(h) implies m.tensors[h].buffer
                != b by {
                assert(m.tensor_ok(m.tensors[h]));
            }
            no_users(m.tensors, b);
        }
    }
    assert forall|s: usize, i: int|
        r.pool.contains_key(s) && 0 <= i < r.pool[s].len() implies r.free_ok(
        s,
        #[trigger] r.pool[s][i],
    ) by {
        assert(m.free_ok(s, m.pool[s][i]));
    }
    assert forall|s: usize, i: int, j: int|
        r.pool.contains_key(s) && 0 <= i < j < r.pool[s].len() implies (
    #[trigger] r.pool[s][i]).buffer != (#[trigger] r.pool[s][j]).buffer by {
        assert(m.pool[s][i].buffer != m.pool[s][j].buffer);
    }
}

/// Fields that `wf` does not speak of.
pub proof fn wf_ignores(m: MemV, n: MemV)
    requires
        m.wf(),
        n.tensors == m.tensors,
        n.next == m.next,
        n.buffers == m.buffers,
        n.pool == m.pool,
    ensures
        n.wf(),
{
    assert forall|h: u64| #[trigger] n.tensors.contains_key(h) implies 0 < h < n.next && n.tensor_ok(
        n.tensors[h],
    ) by {
        assert(m.tensors.contains_key(h));
    }
    assert forall|s: usize, i: int|
        n.pool.contains_key(s) && 0 <= i < n.pool[s].len() implies n.free_ok(
        s,
        #[trigger] n.pool[s][i],
    ) by {
        assert(m.free_ok(s, m.pool[s][i]));
    }
}

/// The state in which the buffer for a request is looked for and found.
pub proof fn find_buffer_keeps(m: MemV, size: usize)
    requires
        m.wf(),
    ensures
        m.find_buffer(size).0.wf(),
        m.find_buffer(size).0.buffers == m.buffers,
        m.find_buffer(size).0.tensors == m.tensors,
        m.find_buffer(size).0.next == m.next,
        m.find_buffer(size).1 matches Some(b) ==> {
            &&& b < m.buffers.len()
            &&& m.buffers[b as int].size == size
            &&& m.buffers[b as int].aliases == 0
            &&& !m.buffers[b as int].dropped
            &&& forall|k: usize, i: int|
                m.find_buffer(size).0.pool.contains_key(k) && 0 <= i < m.find_buffer(
                    size,
                ).0.pool[k].len() ==> (#[trigger] m.find_buffer(size).0.pool[k][i]).buffer != b
        },
{
    popped_keeps(m, size, m.gens.completed);
    let (p1, got1) = pool::popped(m.pool, size, m.gens.completed);
    if got1 is None {
        let s = MemV { budget: m.limit(), ..m };
        wf_ignores(m, s);
        let s2 = MemV { gens: s.gens.flushed(), ..s };
        wf_ignores(m, s2);
        popped_keeps(s2, size, s2.gens.completed);
    }
}

/// Allocation keeps memory in order.
pub proof fn allocate_keeps(m: MemV, dtype: Dtype, dims: Seq<usize>)
    requires
        m.wf(),
        m.alloc_error(dtype, dims) is None,
    ensures
        m.allocate(dtype, dims).0.wf(),
{
    let size = memory::byte_size(dtype, shape::count(dims)) as usize;
    let n = m.noted(size);
    wf_ignores(m, n);
    find_buffer_keeps(n, size);
    let (s, found, flush) = n.find_buffer(size);
    assert(shape::count(dims) <= shape::count(dims) * dtype.size()) by (nonlinear_arith)
        requires
            dtype.size() >= 1,
            shape::count(dims) >= 0,
    ;
    place_keeps(s, dtype, dims, size, found);
}

/// A new tensor has a handle and a buffer of its own: no tensor had the
/// handle, and none uses the buffer.
pub proof fn allocated_apart(m: MemV, dtype: Dtype, dims: Seq<usize>, h: u64)
    requires
        m.wf(),
        m.alloc_error(dtype, dims) is None,
        m.live(h),
    ensures
        m.allocate(dtype, dims).1.handle != h,
        m.allocate(dtype, dims).1.buffer != m.tensors[h].buffer,
{
    let size = memory::byte_size(dtype, shape::count(dims)) as usize;
    let n = m.noted(size);
    wf_ignores(m, n);
    find_buffer_keeps(n, size);
    assert(m.tensor_ok(m.tensors[h]));
    let (s, found, flush) = n.find_buffer(size);
    if found is Some {
        let b = found->0 as int;
        assert(m.buffers[b].aliases == memory::users(m.tensors, b));
        unused_buffer(m.tensors, b, h);
    }
}

/// A buffer is used again only when the work that used it last has completed.
pub proof fn reuse_after_completion(m: MemV, size: usize)
    requires
        m.wf(),
        m.find_buffer(size).1 is Some,
    ensures
        exists|i: int|
            {
                &&& 0 <= i < m.pool[size].len()
                &&& (#[trigger] m.pool[size][i]).buffer == m.find_buffer(size).1->0
                &&& !m.find_buffer(size).0.gens.pending(m.pool[size][i].gen)
            },
{
    let (p1, got1) = pool::popped(m.pool, size, m.gens.completed);
    let c = if got1 is Some {
        m.gens.completed
    } else {
        m.gens.flushed().completed
    };
    pool::first_done_finds(m.pool[size], c, 0);
    let k = pool::first_done(m.pool[size], c, 0)->0;
    assert(m.pool[size][k].buffer == m.find_buffer(size).1->0);
}

/// The limit is soft: with a free buffer of the size whose work is pending, a
/// request beyond it waits for that work and takes the buffer.
pub proof fn limit_forces_reuse(m: MemV, size: usize)
    requires
        m.wf(),
        pool::has_free(m.pool, size),
        m.projected(size) > m.limit(),
        m.gens.ordered(),
        forall|i: int| 0 <= i < m.pool[size].len() ==> (#[trigger] m.pool[size][i]).gen
            <= m.gens.encode,
    ensures
        m.find_buffer(size).1 is Some,
{
    let (p1, got1) = pool::popped(m.pool, size, m.gens.completed);
    if got1 is None {
        let c = m.gens.flushed().completed;
        pool::first_done_finds(m.pool[size], c, 0);
        assert(m.pool[size][0].gen <= m.gens.encode);
    }
}

proof fn tensors_changed_keeps(m: MemV, h: u64, v: TensorV)
    requires
        m.wf(),
        m.live(h),
        v.buffer == m.tensors[h].buffer,
        v.dtype == m.tensors[h].dtype,
        v.shape == m.tensors[h].shape,
        v.len == m.tensors[h].len,
    ensures
        (MemV { tensors: m.tensors.insert(h, v), ..m }).wf(),
{
    let r = MemV { tensors: m.tensors.insert(h, v), ..m };
    assert forall|x: u64| #[trigger] r.tensors.contains_key(x) implies 0 < x < r.next
        && r.tensor_ok(r.tensors[x]) by {
        assert(m.tensors.contains_key(x));
        assert(m.tensor_ok(m.tensors[x]));
    }
    assert forall|b: int| 0 <= b < r.buffers.len() implies (#[trigger] r.buffers[b]).aliases
        == memory::users(r.tensors, b) by {
        users_update(m.tensors, h, v, b);
    }
    assert forall|s: usize, i: int|
        r.pool.contains_key(s) && 0 <= i < r.pool[s].len() implies r.free_ok(
        s,
        #[trigger] r.pool[s][i],
    ) by {
        assert(m.free_ok(s, m.pool[s][i]));
    }
}

/// Adding a reference keeps memory in order.
pub proof fn retain_keeps(m: MemV, h: u64)
    requires
        m.wf(),
        h == 0 || m.live(h),
    ensures
        m.retain(h).wf(),
{
    if h != 0 {
        let v = TensorV { refs: m.tensors[h].refs.wrapping_add(1), ..m.tensors[h] };
        tensors_changed_keeps(m, h, v);
        wf_ignores(MemV { tensors: m.tensors.insert(h, v), ..m }, m.retain(h));
    }
}

pub proof fn with_refs_keeps(m: MemV, h: u64, refs: usize)
    requires
        m.wf(),
        m.live(h),
    ensures
        m.with_refs(h, refs).wf(),
{
    tensors_changed_keeps(m, h, TensorV { refs, ..m.tensors[h] });
}

/// Noting a write keeps memory in order.
pub proof fn written_keeps(m: MemV, h: u64, gen: u64)
    requires
        m.wf(),
        m.live(h),
    ensures
        m.written(h, gen).wf(),
{
    tensors_changed_keeps(m, h, TensorV { last_write_gen: gen, ..m.tensors[h] });
}

/// Noting a use keeps memory in order.
pub proof fn used_keeps(m: MemV, h: u64, gen: u64)
    requires
        m.wf(),
        m.live(h),
    ensures
        m.used(h, gen).wf(),
{
    let r = m.used(h, gen);
    assert(m.tensor_ok(m.tensors[h]));
    assert forall|x: u64| #[trigger] r.tensors.contains_key(x) implies r.tensor_ok(
        r.tensors[x],
    ) by {
        assert(m.tensor_ok(m.tensors[x]));
    }
    assert forall|b: int| 0 <= b < r.buffers.len() implies (#[trigger] r.buffers[b]).aliases
        == memory::users(r.tensors, b) by {
        assert(m.buffers[b].aliases == memory::users(m.tensors, b));
    }
    assert forall|s: usize, i: int|
        r.pool.contains_key(s) && 0 <= i < r.pool[s].len() implies r.free_ok(
        s,
        #[trigger] r.pool[s][i],
    ) by {
        assert(m.free_ok(s, m.pool[s][i]));
    }
}

/// Removing a tensor keeps memory in order.
pub proof fn free_keeps(m: MemV, h: u64)
    requires
        m.wf(),
    ensures
        m.free(h).wf(),
{
    if m.live(h) {
        let r = m.free(h);
        let t = m.tensors[h];
        let id = t.buffer as int;
        let b0 = m.buffers[id];
        assert(m.tensor_ok(t));
        assert(b0.aliases == memory::users(m.tensors, id));
        users_remove(m.tensors, h, id);
        assert forall|x: u64| #[trigger] r.tensors.contains_key(x) implies 0 < x < r.next
            && r.tensor_ok(r.tensors[x]) by {
            assert(m.tensors.contains_key(x));
            assert(m.tensor_ok(m.tensors[x]));
        }
        assert forall|b: int| 0 <= b < r.buffers.len() implies (#[trigger] r.buffers[b]).aliases
            == memory::users(r.tensors, b) by {
            users_remove(m.tensors, h, b);
            assert(m.buffers[b].aliases == memory::users(m.tensors, b));
        }
        assert forall|s: usize, i: int|
            r.pool.contains_key(s) && 0 <= i < r.pool[s].len() implies r.free_ok(
            s,
            #[trigger] r.pool[s][i],
        ) by {
            if m.pool.contains_key(s) && i < m.pool[s].len() {
                assert(r.pool[s][i] == m.pool[s][i]);
                assert(m.free_ok(s, m.pool[s][i]));
            }
        }
        assert forall|s: usize, i: int, j: int|
            r.pool.contains_key(s) && 0 <= i < j < r.pool[s].len() implies (
        #[trigger] r.pool[s][i]).buffer != (#[trigger] r.pool[s][j]).buffer by {
            if m.pool.contains_key(s) && j < m.pool[s].len() {
                assert(r.pool[s][i] == m.pool[s][i]);
                assert(r.pool[s][j] == m.pool[s][j]);
                assert(m.pool[s][i].buffer != m.pool[s][j].buffer);
            } else {
                assert(r.pool[s][i] == m.pool[s][i]);
                assert(m.free_ok(s, m.pool[s][i]));
                assert(r.pool[s][j].buffer == id);
                assert(b0.aliases > 0);
            }
        }
    }
}

/// Removing a reference keeps memory in order.
pub proof fn release_keeps(m: MemV, h: u64)
    requires
        m.wf(),
    ensures
        m.release(h).0.wf(),
    decreases m.leaf_grad.len(),
{
    let s = MemV { counts: m.counts.released(), ..m };
    wf_ignores(m, s);
    if h != 0 && m.live(h) && m.tensors[h].refs > 0 {
        if m.tensors[h].refs > 1 {
            with_refs_keeps(s, h, (m.tensors[h].refs - 1) as usize);
        } else {
            with_refs_keeps(s, h, 0);
            let s1 = s.with_refs(h, 0).forget(h);
            wf_ignores(s.with_refs(h, 0), s1);
            memory::key_at_bounds(m.leaf_grad, h, 0);
            match memory::value_of(m.leaf_grad, h) {
                None => {
                    free_keeps(s1, h);
                },
                Some(g) => {
                    release_keeps(s1, g);
                    free_keeps(s1.release(g).0, h);
                },
            }
        }
    }
}

/// Removing references keeps memory in order.
pub proof fn release_all_keeps(m: MemV, hs: Seq<u64>, i: nat)
    requires
        m.wf(),
    ensures
        m.release_all(hs, i).0.wf(),
    decreases hs.len() - i,
{
    if i < hs.len() {
        release_keeps(m, hs[i as int]);
        if m.release(hs[i as int]).1 is None {
            release_all_keeps(m.release(hs[i as int]).0, hs, i + 1);
        }
    }
}

/// A second tensor on a buffer keeps memory in order.
pub proof fn alias_keeps(m: MemV, h: u64, dims: Seq<usize>)
    requires
        m.wf(),
        m.live(h),
        m.next < u64::MAX,
        shape::count(dims) == m.tensors[h].len,
        m.buffers[m.tensors[h].buffer as int].aliases < u64::MAX,
    ensures
        m.alias(h, dims).wf(),
{
    let r = m.alias(h, dims);
    let t = m.tensors[h];
    let v = r.tensors[m.next];
    let id = t.buffer as int;
    assert(m.tensor_ok(t));
    assert(m.buffers[id].aliases == memory::users(m.tensors, id));
    users_remove(m.tensors, h, id);
    assert(m.buffers[id].aliases > 0);
    assert(!m.tensors.contains_key(m.next));
    assert forall|x: u64| #[trigger] r.tensors.contains_key(x) implies 0 < x < r.next
        && r.tensor_ok(r.tensors[x]) by {
        if x != m.next {
            assert(m.tensors.contains_key(x));
            assert(m.tensor_ok(m.tensors[x]));
        }
    }
    assert forall|b: int| 0 <= b < r.buffers.len() implies (#[trigger] r.buffers[b]).aliases
        == memory::users(r.tensors, b) by {
        users_insert(m.tensors, m.next, v, b);
        assert(m.buffers[b].aliases == memory::users(m.tensors, b));
    }
    assert forall|s: usize, i: int|
        r.pool.contains_key(s) && 0 <= i < r.pool[s].len() implies r.free_ok(
        s,
        #[trigger] r.pool[s][i],
    ) by {
        assert(m.free_ok(s, m.pool[s][i]));
    }
}

/// Emptying the pool keeps memory in order.
pub proof fn pool_reset_keeps(m: MemV)
    requires
        m.wf(),
    ensures
        m.pool_reset().wf(),
{
    let r = m.pool_reset();
    assert forall|x: u64| #[trigger] r.tensors.contains_key(x) implies r.tensor_ok(
        r.tensors[x],
    ) by {
        let id = m.tensors[x].buffer as int;
        assert(m.tensor_ok(m.tensors[x]));
        assert(m.buffers[id].aliases == memory::users(m.tensors, id));
        users_remove(m.tensors, x, id);
    }
    assert forall|b: int| 0 <= b < r.buffers.len() implies (#[trigger] r.buffers[b]).aliases
        == memory::users(r.tensors, b) by {
        assert(m.buffers[b].aliases == memory::users(m.tensors, b));
    }
}

/// Bytes of the first `n` buffers that tensors use.
pub open spec fn live_bytes(b: Seq<DeviceBuffer>, n: nat) -> nat
    decreases n,
{
    if n == 0 {
        0
    } else {
        live_bytes(b, (n - 1) as nat) + (if b[n - 1].aliases > 0 {
            b[n - 1].size as nat
        } else {
            0
        })
    }
}

/// Bytes of the first `n` buffers that wait for reuse.
pub open spec fn free_bytes(b: Seq<DeviceBuffer>, n: nat) -> nat
    decreases n,
{
    if n == 0 {
        0
    } else {
        free_bytes(b, (n - 1) as nat) + (if b[n - 1].aliases == 0 && !b[n - 1].dropped {
            b[n - 1].size as nat
        } else {
            0
        })
    }
}

impl MemV {
    /// The ledger is exact: live and pooled bytes are those of the buffers,
    /// and the peak was never below their sum.
    pub open spec fn balanced(self) -> bool {
        let live = live_bytes(self.buffers, self.buffers.len());
        let free = free_bytes(self.buffers, self.buffers.len());
        &&& live + free <= i64::MAX
        &&& self.ledger.live == live
        &&& self.ledger.pooled == free
        &&& self.ledger.peak >= live + free
    }
}

/// Byte counts depend on sizes, users and whether buffers were given back.
pub proof fn bytes_prefix(a: Seq<DeviceBuffer>, b: Seq<DeviceBuffer>, n: nat)
    requires
        n <= a.len(),
        n <= b.len(),
        forall|i: int|
            0 <= i < n ==> (#[trigger] a[i]).size == b[i].size && (a[i].aliases > 0) == (
            b[i].aliases > 0) && a[i].dropped == b[i].dropped,
    ensures
        live_bytes(a, n) == live_bytes(b, n),
        free_bytes(a, n) == free_bytes(b, n),
    decreases n,
{
    if n > 0 {
        bytes_prefix(a, b, (n - 1) as nat);
        assert(a[n - 1].size == b[n - 1].size);
    }
}

proof fn bytes_update(a: Seq<DeviceBuffer>, k: int, x: DeviceBuffer, n: nat)
    requires
        0 <= k < n <= a.len(),
    ensures
        live_bytes(a.update(k, x), n) + (if a[k].aliases > 0 {
            a[k].size as nat
        } else {
            0
        }) == live_bytes(a, n) + (if x.aliases > 0 {
            x.size as nat
        } else {
            0
        }),
        free_bytes(a.update(k, x), n) + (if a[k].aliases == 0 && !a[k].dropped {
            a[k].size as nat
        } else {
            0
        }) == free_bytes(a, n) + (if x.aliases == 0 && !x.dropped {
            x.size as nat
        } else {
            0
        }),
    decreases n,
{
    if k == n - 1 {
        bytes_prefix(a.update(k, x), a, (n - 1) as nat);
    } else {
        bytes_update(a, k, x, (n - 1) as nat);
    }
}

/// Allocation keeps the ledger exact, while the device bytes can be counted.
pub proof fn allocate_balances(m: MemV, dtype: Dtype, dims: Seq<usize>)
    requires
        m.wf(),
        m.balanced(),
        m.alloc_error(dtype, dims) is None,
        m.ledger.live + m.ledger.pooled + memory::byte_size(dtype, shape::count(dims))
            <= i64::MAX,
    ensures
        m.allocate(dtype, dims).0.balanced(),
{
    let size = memory::byte_size(dtype, shape::count(dims)) as usize;
    let n = m.noted(size);
    wf_ignores(m, n);
    find_buffer_keeps(n, size);
    let (s, found, flush) = n.find_buffer(size);
    let r = s.place(dtype, dims, size, found);
    assert(s.ledger == m.ledger);
    match found {
        Some(b) => {
            bytes_update(m.buffers, b as int, r.buffers[b as int], m.buffers.len());
        },
        None => {
            bytes_prefix(r.buffers, m.buffers, m.buffers.len());
        },
    }
}

/// Removing a tensor keeps the ledger exact.
pub proof fn free_balances(m: MemV, h: u64)
    requires
        m.wf(),
        m.balanced(),
    ensures
        m.free(h).balanced(),
{
    if m.live(h) {
        let id = m.tensors[h].buffer as int;
        assert(m.tensor_ok(m.tensors[h]));
        assert(m.buffers[id].aliases == memory::users(m.tensors, id));
        users_remove(m.tensors, h, id);
        bytes_update(m.buffers, id, m.free(h).buffers[id], m.buffers.len());
    }
}

/// Removing a reference keeps the ledger exact.
pub proof fn release_balances(m: MemV, h: u64)
    requires
        m.wf(),
        m.balanced(),
    ensures
        m.release(h).0.balanced(),
    decreases m.leaf_grad.len(),
{
    let s = MemV { counts: m.counts.released(), ..m };
    wf_ignores(m, s);
    if h != 0 && m.live(h) && m.tensors[h].refs == 1 {
        with_refs_keeps(s, h, 0);
        let s1 = s.with_refs(h, 0).forget(h);
        wf_ignores(s.with_refs(h, 0), s1);
        memory::key_at_bounds(m.leaf_grad, h, 0);
        match memory::value_of(m.leaf_grad, h) {
            None => {
                free_balances(s1, h);
            },
            Some(g) => {
                release_balances(s1, g);
                release_keeps(s1, g);
                free_balances(s1.release(g).0, h);
            },
        }
    }
}

/// A second tensor on a buffer changes no byte count.
pub proof fn alias_balances(m: MemV, h: u64, dims: Seq<usize>)
    requires
        m.wf(),
        m.live(h),
        m.balanced(),
        m.buffers[m.tensors[h].buffer as int].aliases < u64::MAX,
    ensures
        m.alias(h, dims).balanced(),
{
    let id = m.tensors[h].buffer as int;
    assert(m.tensor_ok(m.tensors[h]));
    assert(m.buffers[id].aliases == memory::users(m.tensors, id));
    users_remove(m.tensors, h, id);
    bytes_update(m.buffers, id, m.alias(h, dims).buffers[id], m.buffers.len());
}

proof fn reset_bytes(a: Seq<DeviceBuffer>, b: Seq<DeviceBuffer>, n: nat)
    requires
        n <= a.len(),
        a.len() == b.len(),
        forall|i: int|
            0 <= i < n ==> (#[trigger] b[i]).size == a[i].size && b[i].aliases == a[i].aliases && (
            b[i].aliases == 0 ==> b[i].dropped),
    ensures
        live_bytes(b, n) == live_bytes(a, n),
        free_bytes(b, n) == 0,
    decreases n,
{
    if n > 0 {
        reset_bytes(a, b, (n - 1) as nat);
        assert(b[n - 1].size == a[n - 1].size);
    }
}

/// Emptying the pool keeps the ledger exact: only live bytes stay.
pub proof fn pool_reset_balances(m: MemV)
    requires
        m.balanced(),
    ensures
        m.pool_reset().balanced(),
{
    reset_bytes(m.buffers, m.pool_reset().buffers, m.buffers.len());
}

/// Adding a reference and removing one restores every tensor.
pub proof fn retain_release(m: MemV, h: u64)
    requires
        m.live(h),
        h != 0,
        0 < m.tensors[h].refs < usize::MAX,
    ensures
        m.retain(h).release(h).1 is None,
        m.retain(h).release(h).0 == (MemV { counts: m.counts.retained().released(), ..m }),
{
    let r = m.retain(h).release(h).0;
    assert(r.tensors =~= m.tensors);
    assert(r =~= (MemV { counts: m.counts.retained().released(), ..m }));
}

impl MemV {
    /// Every tensor outside a set has a reference.
    pub open spec fn referenced(self, except: Set<u64>) -> bool {
        forall|h: u64| #[trigger]
            self.tensors.contains_key(h) && !except.contains(h) ==> self.tensors[h].refs > 0
    }
}

proof fn release_refs(m: MemV, h: u64, except: Set<u64>)
    requires
        m.wf(),
        m.referenced(except),
        m.release(h).1 is None,
        forall|x: u64|
            except.contains(x) && #[trigger] m.tensors.contains_key(x) ==> m.tensors[x].refs == 0,
    ensures
        m.release(h).0.referenced(except),
        forall|x: u64|
            except.contains(x) ==> (m.tensors.contains_key(x) <==> #[trigger] m.release(
                h,
            ).0.tensors.contains_key(x)) && (m.tensors.contains_key(x) ==> m.release(
                h,
            ).0.tensors[x].refs == 0),
    decreases m.leaf_grad.len(),
{
    let s = MemV { counts: m.counts.released(), ..m };
    wf_ignores(m, s);
    if h != 0 && m.tensors[h].refs == 1 {
        let s1 = s.with_refs(h, 0).forget(h);
        with_refs_keeps(s, h, 0);
        wf_ignores(s.with_refs(h, 0), s1);
        memory::key_at_bounds(m.leaf_grad, h, 0);
        match memory::value_of(m.leaf_grad, h) {
            None => {},
            Some(g) => {
                release_refs(s1, g, except.insert(h));
                let s2 = s1.release(g).0;
                assert(except.insert(h).contains(h));
                assert(s2.tensors.contains_key(h));
                assert forall|x: u64| except.contains(x) implies (m.tensors.contains_key(x)
                    <==> #[trigger] m.release(h).0.tensors.contains_key(x)) && (
                m.tensors.contains_key(x) ==> m.release(h).0.tensors[x].refs == 0) by {
                    assert(except.insert(h).contains(x));
                    assert(s1.tensors.contains_key(x) <==> s2.tensors.contains_key(x));
                }
                assert forall|x: u64| #[trigger]
                    m.release(h).0.tensors.contains_key(x) && !except.contains(x) implies m.release(
                    h,
                ).0.tensors[x].refs > 0 by {
                    assert(s2.tensors.contains_key(x));
                    assert(x != h);
                    assert(!except.insert(h).contains(x));
                }
            },
        }
    }
}

/// A release that finds a reference everywhere leaves no tensor without one.
pub proof fn release_leaves_references(m: MemV, h: u64)
    requires
        m.wf(),
        m.referenced(Set::empty()),
        m.release(h).1 is None,
    ensures
        m.release(h).0.referenced(Set::empty()),
{
    release_refs(m, h, Set::empty());
}

} // verus!
