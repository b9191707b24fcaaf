//! What holds in every state that memory can reach: the buckets hold the pooled
//! bytes, and the histogram holds the requests.

use crate::runtime::counters::Counters;
use crate::runtime::gens::Gens;
use crate::runtime::memory;
use crate::runtime::memory::MemV;
use crate::runtime::memory_laws;
use crate::runtime::pool;
use crate::runtime::pool::Buckets;
use crate::runtime::shape;
use crate::runtime::tags::Dtype;
use vstd::prelude::*;

verus! {

/// An operation on memory.
pub enum MemOp {
    /// An allocation request.
    Alloc { dtype: Dtype, dims: Seq<usize> },
    Retain(u64),
    Release(u64),
    /// A second tensor on a buffer.
    Alias { h: u64, dims: Seq<usize> },
    /// Device work that uses a tensor's buffer.
    Use { h: u64, gen: u64 },
    /// Device work that writes a tensor.
    Write { h: u64, gen: u64 },
    /// Any progress of the device.
    Device(Gens),
    /// Any new limit.
    Budget(i64),
    /// Any change of the counters.
    Counts(Counters),
    /// Any change of the registry of leaves.
    Leaves { leaves: Seq<u64>, grads: Seq<(u64, u64)> },
    PoolReset,
}

impl MemV {
    /// Memory after an operation; one that is refused changes nothing.
    pub open spec fn step(self, op: MemOp) -> MemV {
        match op {
            MemOp::Alloc { dtype, dims } => if self.alloc_error(dtype, dims) is None {
                self.allocate(dtype, dims).0
            } else {
                self
            },
            MemOp::Retain(h) => if h == 0 || self.live(h) {
                self.retain(h)
            } else {
                self
            },
            MemOp::Release(h) => self.release(h).0,
            MemOp::Alias { h, dims } => if self.live(h) && self.next < u64::MAX && shape::count(dims)
                == self.tensors[h].len && self.buffers[self.tensors[h].buffer as int].aliases
                < u64::MAX {
                self.alias(h, dims)
            } else {
                self
            },
            MemOp::Use { h, gen } => if self.live(h) {
                self.used(h, gen)
            } else {
                self
            },
            MemOp::Write { h, gen } => if self.live(h) {
                self.written(h, gen)
            } else {
                self
            },
            MemOp::Device(gens) => MemV { gens, ..self },
            MemOp::Budget(budget) => MemV { budget, ..self },
            MemOp::Counts(counts) => MemV { counts, ..self },
            MemOp::Leaves { leaves, grads } => MemV { leaves, leaf_grad: grads, ..self },
            MemOp::PoolReset => self.pool_reset(),
        }
    }

    /// Whether an operation is a request that is served.
    pub open spec fn serves(self, op: MemOp) -> bool {
        match op {
            MemOp::Alloc { dtype, dims } => self.alloc_error(dtype, dims) is None,
            _ => false,
        }
    }

    /// Whether the device bytes can be counted after an operation.
    pub open spec fn countable(self, op: MemOp) -> bool {
        match op {
            MemOp::Alloc { dtype, dims } => self.alloc_error(dtype, dims) is None
                ==> self.ledger.live + self.ledger.pooled + memory::byte_size(
                dtype,
                shape::count(dims),
            ) <= i64::MAX,
            _ => true,
        }
    }

    /// Memory after several operations.
    pub open spec fn run(self, ops: Seq<MemOp>) -> MemV
        decreases ops.len(),
    {
        if ops.len() == 0 {
            self
        } else {
            self.run(ops.drop_last()).step(ops.last())
        }
    }

    /// Whether the device bytes can be counted all the time.
    pub open spec fn all_countable(self, ops: Seq<MemOp>) -> bool
        decreases ops.len(),
    {
        ops.len() == 0 || (self.all_countable(ops.drop_last()) && self.run(
            ops.drop_last(),
        ).countable(ops.last()))
    }

    /// Number of requests that were served, from the pool or not.
    pub open spec fn requests(self, ops: Seq<MemOp>) -> nat
        decreases ops.len(),
    {
        if ops.len() == 0 {
            0
        } else if self.run(ops.drop_last()).serves(ops.last()) {
            self.requests(ops.drop_last()) + 1
        } else {
            self.requests(ops.drop_last())
        }
    }
}

/// The sum of `f` over the numbers below `n`.
pub open spec fn sum(f: spec_fn(nat) -> nat, n: nat) -> nat
    decreases n,
{
    if n == 0 {
        0
    } else {
        sum(f, (n - 1) as nat) + f((n - 1) as nat)
    }
}

proof fn sum_same(f: spec_fn(nat) -> nat, g: spec_fn(nat) -> nat, n: nat)
    requires
        forall|k: nat| k < n ==> #[trigger] f(k) == g(k),
    ensures
        sum(f, n) == sum(g, n),
    decreases n,
{
    if n > 0 {
        sum_same(f, g, (n - 1) as nat);
        assert(f((n - 1) as nat) == g((n - 1) as nat));
    }
}

proof fn sum_changed(f: spec_fn(nat) -> nat, g: spec_fn(nat) -> nat, at: nat, n: nat)
    requires
        at < n,
        forall|k: nat| k < n && k != at ==> #[trigger] f(k) == g(k),
    ensures
        sum(g, n) + f(at) == sum(f, n) + g(at),
    decreases n,
{
    if at == n - 1 {
        sum_same(f, g, (n - 1) as nat);
    } else {
        sum_changed(f, g, at, (n - 1) as nat);
        assert(f((n - 1) as nat) == g((n - 1) as nat));
    }
}

proof fn sum_zero(f: spec_fn(nat) -> nat, from: nat, n: nat)
    requires
        from <= n,
        forall|k: nat| from <= k < n ==> #[trigger] f(k) == 0,
    ensures
        sum(f, n) == sum(f, from),
    decreases n - from,
{
    if from < n {
        sum_zero(f, from, (n - 1) as nat);
        assert(f((n - 1) as nat) == 0);
    }
}

/// The sum of `f` over the first `n` numbers of a list.
pub open spec fn sum_at(f: spec_fn(nat) -> nat, keys: Seq<nat>, n: nat) -> nat
    decreases n,
{
    if n == 0 {
        0
    } else {
        sum_at(f, keys, (n - 1) as nat) + f(keys[n - 1])
    }
}

/// A sum over a list of all numbers that count is the sum over all numbers.
proof fn sum_listed(f: spec_fn(nat) -> nat, keys: Seq<nat>, i: nat, n: nat)
    requires
        i <= keys.len(),
        forall|a: int, b: int| 0 <= a < b < keys.len() ==> #[trigger] keys[a] < #[trigger] keys[b],
        forall|a: int| 0 <= a < i ==> #[trigger] keys[a] < n,
        forall|k: nat|
            k < n && #[trigger] f(k) != 0 ==> exists|a: int| 0 <= a < i && #[trigger] keys[a] == k,
    ensures
        sum_at(f, keys, i) == sum(f, n),
    decreases i,
{
    if i == 0 {
        assert forall|k: nat| 0 <= k < n implies #[trigger] f(k) == 0 by {}
        sum_zero(f, 0, n);
    } else {
        let last = keys[i - 1];
        assert forall|k: nat| last + 1 <= k < n implies #[trigger] f(k) == 0 by {
            if f(k) != 0 {
                let a = choose|a: int| 0 <= a < i && #[trigger] keys[a] == k;
                if a < i - 1 {
                    assert(keys[a] < keys[i - 1]);
                }
            }
        }
        sum_zero(f, last + 1, n);
        assert forall|k: nat| k < last && #[trigger] f(k) != 0 implies exists|a: int|
            0 <= a < i - 1 && #[trigger] keys[a] == k by {
            let a = choose|a: int| 0 <= a < i && #[trigger] keys[a] == k;
            assert(a != i - 1);
            assert(keys[a] == k);
        }
        assert forall|a: int| 0 <= a < i - 1 implies #[trigger] keys[a] < last by {
            assert(keys[a] < keys[i - 1]);
        }
        sum_listed(f, keys, (i - 1) as nat, last);
    }
}

/// Bytes of the free buffers of a size.
pub open spec fn bucket_bytes(pool: Buckets) -> spec_fn(nat) -> nat {
    |k: nat|
        if k <= usize::MAX && pool.contains_key(k as usize) {
            k * pool[k as usize].len()
        } else {
            0
        }
}

/// Bytes of all free buffers.
pub open spec fn pool_bytes(pool: Buckets) -> nat {
    sum(bucket_bytes(pool), (usize::MAX + 1) as nat)
}

/// Requests of a size.
pub open spec fn size_requests(histogram: Map<u64, u64>) -> spec_fn(nat) -> nat {
    |k: nat|
        if k <= u64::MAX && histogram.contains_key(k as u64) {
            histogram[k as u64] as nat
        } else {
            0
        }
}

/// Requests of all sizes.
pub open spec fn all_requests(histogram: Map<u64, u64>) -> nat {
    sum(size_requests(histogram), (u64::MAX + 1) as nat)
}

impl MemV {
    /// The buckets hold the pooled bytes, and no bucket is of size zero.
    pub open spec fn tallied(self) -> bool {
        &&& pool_bytes(self.pool) == self.ledger.pooled
        &&& forall|k: usize| #[trigger] self.pool.contains_key(k) ==> k >= 1
    }

    /// The histogram holds a number of requests; while it is off, none.
    pub open spec fn recorded(self, requests: nat) -> bool {
        if self.histogram_on {
            &&& all_requests(self.histogram) == requests
            &&& forall|k: u64| #[trigger] self.histogram.contains_key(k) ==> self.histogram[k] >= 1
        } else {
            self.histogram == Map::<u64, u64>::empty()
        }
    }
}

/// A change of one bucket.
proof fn bucket_changed(pool: Buckets, size: usize, free: Seq<pool::Free>)
    ensures
        pool_bytes(pool.insert(size, free)) + (if pool.contains_key(size) {
            size * pool[size].len()
        } else {
            0
        }) == pool_bytes(pool) + size * free.len(),
{
    let f = bucket_bytes(pool);
    let g = bucket_bytes(pool.insert(size, free));
    assert forall|k: nat| k < usize::MAX + 1 && k != size implies #[trigger] f(k) == g(k) by {
        assert(k as usize != size);
    }
    sum_changed(f, g, size as nat, (usize::MAX + 1) as nat);
    assert(g(size as nat) == size * free.len());
}

proof fn popped_bytes(pool: Buckets, size: usize, completed: u64)
    ensures
        ({
            let (p, got) = pool::popped(pool, size, completed);
            &&& pool_bytes(p) + (if got is Some {
                size as nat
            } else {
                0
            }) == pool_bytes(pool)
            &&& p.dom() == pool.dom()
        }),
{
    let (p, got) = pool::popped(pool, size, completed);
    if got is Some {
        let old_free = pool[size];
        pool::first_done_finds(old_free, completed, 0);
        let at = pool::first_done(old_free, completed, 0)->0;
        bucket_changed(pool, size, old_free.remove(at));
        let n = old_free.len();
        assert(size * (n - 1) + size == size * n) by (nonlinear_arith);
        assert(p.dom() =~= pool.dom());
    }
}

proof fn pushed_bytes(pool: Buckets, size: usize, f: pool::Free)
    ensures
        pool_bytes(pool::pushed(pool, size, f)) == pool_bytes(pool) + size,
        pool::pushed(pool, size, f).dom() == pool.dom().insert(size),
{
    if pool.contains_key(size) {
        bucket_changed(pool, size, pool[size].push(f));
        let n = pool[size].len();
        assert(size * (n + 1) == size * n + size) by (nonlinear_arith);
        assert(pool::pushed(pool, size, f).dom() =~= pool.dom().insert(size));
    } else {
        bucket_changed(pool, size, seq![f]);
        assert(size * 1 == size) by (nonlinear_arith);
    }
}

proof fn found_bytes(m: MemV, size: usize)
    ensures
        ({
            let (s, found, _) = m.find_buffer(size);
            &&& pool_bytes(s.pool) + (if found is Some {
                size as nat
            } else {
                0
            }) == pool_bytes(m.pool)
            &&& s.pool.dom() == m.pool.dom()
            &&& s.ledger == m.ledger
            &&& s.histogram == m.histogram
            &&& s.histogram_on == m.histogram_on
        }),
{
    popped_bytes(m.pool, size, m.gens.completed);
    popped_bytes(m.pool, size, m.gens.flushed().completed);
}

proof fn allocate_tallies(m: MemV, dtype: Dtype, dims: Seq<usize>)
    requires
        m.wf(),
        m.balanced(),
        m.tallied(),
        m.alloc_error(dtype, dims) is None,
        m.ledger.live + m.ledger.pooled + memory::byte_size(dtype, shape::count(dims)) <= i64::MAX,
    ensures
        m.allocate(dtype, dims).0.tallied(),
{
    let size = memory::byte_size(dtype, shape::count(dims)) as usize;
    found_bytes(m.noted(size), size);
    let (s, found, _) = m.noted(size).find_buffer(size);
    let r = s.place(dtype, dims, size, found);
    assert(r.pool == s.pool);
    assert forall|k: usize| #[trigger] r.pool.contains_key(k) implies k >= 1 by {
        assert(m.pool.contains_key(k));
    }
}

proof fn free_tallies(m: MemV, h: u64)
    requires
        m.wf(),
        m.balanced(),
        m.tallied(),
    ensures
        m.free(h).tallied(),
{
    if m.live(h) {
        let t = m.tensors[h];
        let b = m.buffers[t.buffer as int];
        assert(m.tensor_ok(t));
        assert(b.aliases == memory::users(m.tensors, t.buffer as int));
        memory_laws::users_remove(m.tensors, h, t.buffer as int);
        if b.aliases <= 1 {
            let f = pool::Free { gen: b.state.last_use_gen, buffer: t.buffer };
            pushed_bytes(m.pool, b.size, f);
            memory_laws::free_balances(m, h);
            let r = m.free(h);
            assert(memory_laws::live_bytes(m.buffers, m.buffers.len()) >= b.size) by {
                live_at_least(m.buffers, m.buffers.len(), t.buffer as int);
            }
            assert forall|k: usize| #[trigger] r.pool.contains_key(k) implies k >= 1 by {
                assert(k == b.size || m.pool.contains_key(k));
            }
        }
    }
}

/// A buffer in use is among the live bytes.
proof fn live_at_least(b: Seq<memory::DeviceBuffer>, n: nat, i: int)
    requires
        0 <= i < n <= b.len(),
        b[i].aliases > 0,
    ensures
        memory_laws::live_bytes(b, n) >= b[i].size,
    decreases n,
{
    if i < n - 1 {
        live_at_least(b, (n - 1) as nat, i);
    }
}

/// Removing a reference keeps the buckets in step, and the histogram as it is.
proof fn release_tallies(m: MemV, h: u64)
    requires
        m.wf(),
        m.balanced(),
        m.tallied(),
    ensures
        m.release(h).0.tallied(),
        m.release(h).0.histogram == m.histogram,
        m.release(h).0.histogram_on == m.histogram_on,
    decreases m.leaf_grad.len(),
{
    let s = MemV { counts: m.counts.released(), ..m };
    memory_laws::wf_ignores(m, s);
    if h != 0 && m.live(h) && m.tensors[h].refs == 1 {
        memory_laws::with_refs_keeps(s, h, 0);
        let s1 = s.with_refs(h, 0).forget(h);
        memory_laws::wf_ignores(s.with_refs(h, 0), s1);
        memory::key_at_bounds(m.leaf_grad, h, 0);
        match memory::value_of(m.leaf_grad, h) {
            None => {
                free_tallies(s1, h);
            },
            Some(g) => {
                release_tallies(s1, g);
                memory_laws::release_balances(s1, g);
                memory_laws::release_keeps(s1, g);
                free_tallies(s1.release(g).0, h);
            },
        }
    }
}

/// A served request is recorded once.
proof fn allocate_records(m: MemV, dtype: Dtype, dims: Seq<usize>, n: nat)
    requires
        m.recorded(n),
        n < u64::MAX,
    ensures
        m.allocate(dtype, dims).0.recorded(n + 1),
{
    let size = memory::byte_size(dtype, shape::count(dims)) as usize;
    let noted = m.noted(size);
    found_bytes(noted, size);
    let r = m.allocate(dtype, dims).0;
    assert(r.histogram == noted.histogram);
    if m.histogram_on {
        let k = size as u64;
        let f = size_requests(m.histogram);
        let g = size_requests(noted.histogram);
        let top = (u64::MAX + 1) as nat;
        assert forall|j: nat| j < top && j != k implies #[trigger] f(j) == g(j) by {
            assert(j as u64 != k);
        }
        sum_changed(f, g, k as nat, top);
        sum_covers(f, k as nat, top);
        assert(f(k as nat) == (if m.histogram.contains_key(k) {
            m.histogram[k] as nat
        } else {
            0
        }));
        assert(g(k as nat) == f(k as nat) + 1);
        assert forall|x: u64| #[trigger] r.histogram.contains_key(x) implies r.histogram[x]
            >= 1 by {
            assert(x == k || m.histogram.contains_key(x));
        }
    }
}

/// No part of a sum is larger than the sum.
proof fn sum_covers(f: spec_fn(nat) -> nat, at: nat, n: nat)
    requires
        at < n,
    ensures
        f(at) <= sum(f, n),
    decreases n,
{
    if at < n - 1 {
        sum_covers(f, at, (n - 1) as nat);
    }
}

/// Every operation keeps memory in order, the ledger exact and the buckets in
/// step with it.
pub proof fn step_keeps(m: MemV, op: MemOp)
    requires
        m.wf(),
        m.balanced(),
        m.tallied(),
        m.countable(op),
    ensures
        m.step(op).wf(),
        m.step(op).balanced(),
        m.step(op).tallied(),
{
    match op {
        MemOp::Alloc { dtype, dims } => {
            if m.alloc_error(dtype, dims) is None {
                memory_laws::allocate_keeps(m, dtype, dims);
                memory_laws::allocate_balances(m, dtype, dims);
                allocate_tallies(m, dtype, dims);
            }
        },
        MemOp::Retain(h) => {
            if h == 0 || m.live(h) {
                memory_laws::retain_keeps(m, h);
            }
        },
        MemOp::Release(h) => {
            memory_laws::release_keeps(m, h);
            memory_laws::release_balances(m, h);
            release_tallies(m, h);
        },
        MemOp::Alias { h, dims } => {
            if m.step(op) != m {
                memory_laws::alias_keeps(m, h, dims);
                memory_laws::alias_balances(m, h, dims);
            }
        },
        MemOp::Use { h, gen } => {
            if m.live(h) {
                memory_laws::used_keeps(m, h, gen);
                assert(m.tensor_ok(m.tensors[h]));
                memory_laws::bytes_prefix(m.used(h, gen).buffers, m.buffers, m.buffers.len());
            }
        },
        MemOp::Write { h, gen } => {
            if m.live(h) {
                memory_laws::written_keeps(m, h, gen);
            }
        },
        MemOp::PoolReset => {
            memory_laws::pool_reset_keeps(m);
            memory_laws::pool_reset_balances(m);
            let r = m.pool_reset();
            let f = bucket_bytes(r.pool);
            let top = (usize::MAX + 1) as nat;
            assert forall|k: nat| 0 <= k < top implies #[trigger] f(k) == 0 by {}
            sum_zero(f, 0, top);
        },
        _ => {
            memory_laws::wf_ignores(m, m.step(op));
        },
    }
}

/// Every operation records the request that it serves, and nothing else.
pub proof fn step_records(m: MemV, op: MemOp, n: nat)
    requires
        m.wf(),
        m.balanced(),
        m.tallied(),
        m.recorded(n),
        n < u64::MAX,
    ensures
        m.step(op).recorded(if m.serves(op) {
            n + 1
        } else {
            n
        }),
{
    match op {
        MemOp::Alloc { dtype, dims } => {
            if m.alloc_error(dtype, dims) is None {
                allocate_records(m, dtype, dims, n);
            }
        },
        MemOp::Release(h) => {
            release_tallies(m, h);
        },
        _ => {},
    }
}

/// In every state that memory reaches by any operations, while its bytes and
/// its requests can be counted, memory is in order, the ledger is exact, the
/// buckets hold the pooled bytes, and the histogram holds the requests served.
pub proof fn reached_states(sync: bool, histogram_on: bool, mb: Option<i64>, ops: Seq<MemOp>)
    requires
        MemV::start(sync, histogram_on, mb).all_countable(ops),
        MemV::start(sync, histogram_on, mb).requests(ops) < u64::MAX,
    ensures
        ({
            let start = MemV::start(sync, histogram_on, mb);
            let m = start.run(ops);
            &&& m.wf()
            &&& m.balanced()
            &&& m.tallied()
            &&& m.histogram_on == histogram_on
            &&& m.recorded(start.requests(ops))
        }),
    decreases ops.len(),
{
    let start = MemV::start(sync, histogram_on, mb);
    if ops.len() == 0 {
        let f = bucket_bytes(start.pool);
        let top = (usize::MAX + 1) as nat;
        assert forall|k: nat| 0 <= k < top implies #[trigger] f(k) == 0 by {}
        sum_zero(f, 0, top);
        let g = size_requests(start.histogram);
        let wide = (u64::MAX + 1) as nat;
        assert forall|k: nat| 0 <= k < wide implies #[trigger] g(k) == 0 by {}
        sum_zero(g, 0, wide);
    } else {
        reached_states(sync, histogram_on, mb, ops.drop_last());
        let m = start.run(ops.drop_last());
        step_keeps(m, ops.last());
        step_records(m, ops.last(), start.requests(ops.drop_last()));
        if ops.last() is Release {
            release_tallies(m, ops.last()->Release_0);
        }
        if ops.last() is Alloc {
            let size = memory::byte_size(
                ops.last()->dtype,
                shape::count(ops.last()->Alloc_dims),
            ) as usize;
            found_bytes(m.noted(size), size);
        }
    }
}

/// Bytes that a list of bucket sizes and counts stands for.
pub open spec fn listed_bytes(r: Seq<(usize, usize)>, n: nat) -> nat
    decreases n,
{
    if n == 0 {
        0
    } else {
        listed_bytes(r, (n - 1) as nat) + (r[n - 1].0 as nat) * (r[n - 1].1 as nat)
    }
}

/// The list of the buckets adds up to the pooled bytes, and every size in it is
/// at least one.
pub proof fn buckets_add_up(m: MemV, r: Seq<(usize, usize)>)
    requires
        m.tallied(),
        memory::lists_pool(r, m.pool),
    ensures
        listed_bytes(r, r.len()) == m.ledger.pooled,
        forall|i: int| 0 <= i < r.len() ==> (#[trigger] r[i]).0 >= 1,
{
    let f = bucket_bytes(m.pool);
    let keys = Seq::new(r.len(), |i: int| r[i].0 as nat);
    let top = (usize::MAX + 1) as nat;
    assert forall|a: int, b: int| 0 <= a < b < keys.len() implies #[trigger] keys[a]
        < #[trigger] keys[b] by {
        assert(r[a].0 < r[b].0);
    }
    assert forall|k: nat| k < top && #[trigger] f(k) != 0 implies exists|a: int|
        0 <= a < keys.len() && #[trigger] keys[a] == k by {
        assert(m.pool.contains_key(k as usize));
        let a = choose|a: int| 0 <= a < r.len() && (#[trigger] r[a]).0 == k as usize;
        assert(keys[a] == k);
    }
    sum_listed(f, keys, keys.len(), top);
    listed_bytes_sum(m.pool, r, keys, r.len());
    assert forall|i: int| 0 <= i < r.len() implies (#[trigger] r[i]).0 >= 1 by {
        assert(m.pool.contains_key(r[i].0));
    }
}

proof fn listed_bytes_sum(pool: Buckets, r: Seq<(usize, usize)>, keys: Seq<nat>, n: nat)
    requires
        n <= r.len(),
        keys == Seq::new(r.len(), |i: int| r[i].0 as nat),
        memory::lists_pool(r, pool),
    ensures
        listed_bytes(r, n) == sum_at(bucket_bytes(pool), keys, n),
    decreases n,
{
    if n > 0 {
        listed_bytes_sum(pool, r, keys, (n - 1) as nat);
        assert(pool.contains_key(r[n - 1].0));
    }
}

/// Right after a reset of the pool there is no bucket.
pub proof fn reset_empties_buckets(m: MemV, r: Seq<(usize, usize)>)
    requires
        memory::lists_pool(r, m.pool_reset().pool),
    ensures
        r.len() == 0,
{
    if r.len() > 0 {
        assert(m.pool_reset().pool.contains_key(r[0].0));
    }
}

/// Requests that a list of sizes and counts stands for.
pub open spec fn listed_requests(r: Seq<(u64, u64)>, n: nat) -> nat
    decreases n,
{
    if n == 0 {
        0
    } else {
        listed_requests(r, (n - 1) as nat) + (r[n - 1].1 as nat)
    }
}

/// While the histogram is on, its counts add up to the number of requests and
/// are at least one; while it is off, it is empty.
pub proof fn histogram_adds_up(m: MemV, r: Seq<(u64, u64)>, requests: nat)
    requires
        m.recorded(requests),
        memory::lists_requests(r, m.histogram),
    ensures
        m.histogram_on ==> listed_requests(r, r.len()) == requests,
        !m.histogram_on ==> r.len() == 0,
        forall|i: int| 0 <= i < r.len() ==> (#[trigger] r[i]).1 >= 1,
{
    assert forall|i: int| 0 <= i < r.len() implies (#[trigger] r[i]).1 >= 1 by {
        assert(m.histogram.contains_key(r[i].0));
    }
    if m.histogram_on {
        let f = size_requests(m.histogram);
        let keys = Seq::new(r.len(), |i: int| r[i].0 as nat);
        let top = (u64::MAX + 1) as nat;
        assert forall|a: int, b: int| 0 <= a < b < keys.len() implies #[trigger] keys[a]
            < #[trigger] keys[b] by {
            assert(r[a].0 < r[b].0);
        }
        assert forall|k: nat| k < top && #[trigger] f(k) != 0 implies exists|a: int|
            0 <= a < keys.len() && #[trigger] keys[a] == k by {
            assert(m.histogram.contains_key(k as u64));
            let a = choose|a: int| 0 <= a < r.len() && (#[trigger] r[a]).0 == k as u64;
            assert(keys[a] == k);
        }
        sum_listed(f, keys, keys.len(), top);
        listed_requests_sum(m.histogram, r, keys, r.len());
    } else if r.len() > 0 {
        assert(m.histogram.contains_key(r[0].0));
    }
}

proof fn listed_requests_sum(h: Map<u64, u64>, r: Seq<(u64, u64)>, keys: Seq<nat>, n: nat)
    requires
        n <= r.len(),
        keys == Seq::new(r.len(), |i: int| r[i].0 as nat),
        memory::lists_requests(r, h),
    ensures
        listed_requests(r, n) == sum_at(size_requests(h), keys, n),
    decreases n,
{
    if n > 0 {
        listed_requests_sum(h, r, keys, (n - 1) as nat);
        assert(h.contains_key(r[n - 1].0));
    }
}

} // verus!
