//! Reuse of device buffers. Buffers that are no longer used wait in buckets by
//! exact size, each with the generation that used it last, and can be taken
//! again once that generation has completed.

use vstd::prelude::*;

verus! {

/// Last use of a device buffer.
#[derive(Clone, Copy, Debug, PartialEq, Eq, Structural)]
pub struct PoolState {
    /// Generation that last encoded any use of the buffer, as an input or as
    /// an output.
    pub last_use_gen: u64,
}

/// A free buffer: the generation that used it last and its number.
#[derive(Clone, Copy, Debug, PartialEq, Eq, Structural)]
pub struct Free {
    pub gen: u64,
    pub buffer: usize,
}

/// The free buffers of one size, in the order of their release.
#[derive(Debug)]
pub struct Bucket {
    pub size: usize,
    pub free: Vec<Free>,
}

/// Byte counts, and how often the pool could serve a request.
#[derive(Clone, Copy, Debug, PartialEq, Eq, Structural)]
pub struct Ledger {
    pub hits: i64,
    pub misses: i64,
    pub pooled: i64,
    pub live: i64,
    pub peak: i64,
}

#[derive(Debug)]
pub struct Pool {
    pub buckets: Vec<Bucket>,
}

pub type Buckets = Map<usize, Seq<Free>>;

/// The first `n` buckets by size.
pub open spec fn bucket_map(b: Seq<Bucket>, n: nat) -> Buckets
    decreases n,
{
    if n == 0 || n > b.len() {
        Map::empty()
    } else {
        bucket_map(b, (n - 1) as nat).insert(b[n - 1].size, b[n - 1].free@)
    }
}

impl View for Pool {
    type V = Buckets;

    open spec fn view(&self) -> Buckets {
        bucket_map(self.buckets@, self.buckets@.len())
    }
}

/// First free buffer, from `i` on, whose last use has completed.
pub open spec fn first_done(f: Seq<Free>, completed: u64, i: nat) -> Option<int>
    decreases f.len() - i,
{
    if i >= f.len() {
        None
    } else if f[i as int].gen <= completed {
        Some(i as int)
    } else {
        first_done(f, completed, i + 1)
    }
}

/// What `first_done` finds: an entry whose use has completed, behind entries
/// whose use has not.
pub proof fn first_done_finds(f: Seq<Free>, completed: u64, i: nat)
    ensures
        match first_done(f, completed, i) {
            Some(k) => {
                &&& i <= k < f.len()
                &&& f[k].gen <= completed
                &&& forall|j: int| i <= j < k ==> (#[trigger] f[j]).gen > completed
            },
            None => forall|j: int| i <= j < f.len() ==> (#[trigger] f[j]).gen > completed,
        },
    decreases f.len() - i,
{
    if i < f.len() && f[i as int].gen > completed {
        first_done_finds(f, completed, i + 1);
    }
}

/// Takes the first buffer of a size whose last use has completed.
pub open spec fn popped(m: Buckets, size: usize, completed: u64) -> (Buckets, Option<usize>) {
    if m.contains_key(size) {
        match first_done(m[size], completed, 0) {
            Some(k) => (m.insert(size, m[size].remove(k)), Some(m[size][k].buffer)),
            None => (m, None),
        }
    } else {
        (m, None)
    }
}

/// Adds a free buffer behind those of its size.
pub open spec fn pushed(m: Buckets, size: usize, f: Free) -> Buckets {
    if m.contains_key(size) {
        m.insert(size, m[size].push(f))
    } else {
        m.insert(size, seq![f])
    }
}

/// Whether any buffer of a size is free, finished or not.
pub open spec fn has_free(m: Buckets, size: usize) -> bool {
    m.contains_key(size) && m[size].len() > 0
}

/// Sizes in ascending order.
pub open spec fn sorted(b: Seq<Bucket>) -> bool {
    forall|i: int, j: int|
        0 <= i < j < b.len() ==> (#[trigger] b[i]).size < (#[trigger] b[j]).size
}

proof fn bucket_map_at(b: Seq<Bucket>, n: nat, k: usize)
    requires
        sorted(b),
        n <= b.len(),
    ensures
        bucket_map(b, n).contains_key(k) <==> exists|i: int|
            0 <= i < n && (#[trigger] b[i]).size == k,
        forall|i: int|
            0 <= i < n && (#[trigger] b[i]).size == k ==> bucket_map(b, n)[k] == b[i].free@,
    decreases n,
{
    if n > 0 {
        bucket_map_at(b, (n - 1) as nat, k);
        if b[n - 1].size == k {
            assert(bucket_map(b, n).contains_key(k));
        }
    }
}

/// Changing the contents of one bucket.
proof fn bucket_changed(before: Seq<Bucket>, after: Seq<Bucket>, i: int)
    requires
        sorted(before),
        0 <= i < before.len(),
        after.len() == before.len(),
        after[i].size == before[i].size,
        forall|j: int| 0 <= j < after.len() && j != i ==> #[trigger] after[j] == before[j],
    ensures
        sorted(after),
        bucket_map(before, before.len()).contains_key(before[i].size),
        bucket_map(before, before.len())[before[i].size] == before[i].free@,
        bucket_map(after, after.len()) == bucket_map(before, before.len()).insert(
            before[i].size,
            after[i].free@,
        ),
{
    let size = before[i].size;
    bucket_map_at(before, before.len(), size);
    assert forall|p: int, q: int| 0 <= p < q < after.len() implies (#[trigger] after[p]).size < (
    #[trigger] after[q]).size by {
        assert(before[p].size < before[q].size);
    }
    let m = bucket_map(before, before.len());
    let m2 = bucket_map(after, after.len());
    let goal = m.insert(size, after[i].free@);
    assert forall|s: usize| #[trigger] m2.contains_key(s) <==> goal.contains_key(s) by {
        bucket_map_at(before, before.len(), s);
        bucket_map_at(after, after.len(), s);
        if m.contains_key(s) {
            let w = choose|w: int| 0 <= w < before.len() && (#[trigger] before[w]).size == s;
            assert(after[w].size == s);
        }
        if m2.contains_key(s) {
            let w = choose|w: int| 0 <= w < after.len() && (#[trigger] after[w]).size == s;
            assert(before[w].size == s);
        }
    }
    assert forall|s: usize| #[trigger] m2.contains_key(s) implies m2[s] == goal[s] by {
        bucket_map_at(before, before.len(), s);
        bucket_map_at(after, after.len(), s);
        let w = choose|w: int| 0 <= w < after.len() && (#[trigger] after[w]).size == s;
        assert(before[w].size == s);
        if w != i {
            if w < i {
                assert(before[w].size < before[i].size);
            } else {
                assert(before[i].size < before[w].size);
            }
        }
    }
    assert(m2 =~= goal);
}

/// Inserting a bucket of a new size at its place.
proof fn bucket_inserted(before: Seq<Bucket>, i: int, b: Bucket)
    requires
        sorted(before),
        0 <= i <= before.len(),
        forall|j: int| 0 <= j < i ==> (#[trigger] before[j]).size < b.size,
        forall|j: int| i <= j < before.len() ==> (#[trigger] before[j]).size > b.size,
    ensures
        sorted(before.insert(i, b)),
        !bucket_map(before, before.len()).contains_key(b.size),
        bucket_map(before.insert(i, b), before.len() + 1) == bucket_map(
            before,
            before.len(),
        ).insert(b.size, b.free@),
{
    let after = before.insert(i, b);
    let n = before.len();
    assert forall|p: int, q: int| 0 <= p < q < after.len() implies (#[trigger] after[p]).size < (
    #[trigger] after[q]).size by {
        let p0 = if p < i {
            p
        } else {
            p - 1
        };
        let q0 = if q < i {
            q
        } else {
            q - 1
        };
        if p != i && q != i {
            assert(before[p0].size < before[q0].size);
        } else if p == i {
            assert(before[q0].size > b.size);
        } else {
            assert(before[p0].size < b.size);
        }
    }
    let m = bucket_map(before, n);
    let m2 = bucket_map(after, n + 1);
    let goal = m.insert(b.size, b.free@);
    bucket_map_at(before, n, b.size);
    assert forall|s: usize| #[trigger] m2.contains_key(s) <==> goal.contains_key(s) by {
        bucket_map_at(before, n, s);
        bucket_map_at(after, n + 1, s);
        if m.contains_key(s) {
            let w = choose|w: int| 0 <= w < before.len() && (#[trigger] before[w]).size == s;
            if w < i {
                assert(after[w].size == s);
            } else {
                assert(after[w + 1].size == s);
            }
        }
        assert(after[i].size == b.size);
        if m2.contains_key(s) && s != b.size {
            let w = choose|w: int| 0 <= w < after.len() && (#[trigger] after[w]).size == s;
            if w < i {
                assert(before[w].size == s);
            } else {
                assert(before[w - 1].size == s);
            }
        }
    }
    assert forall|s: usize| #[trigger] m2.contains_key(s) implies m2[s] == goal[s] by {
        bucket_map_at(before, n, s);
        bucket_map_at(after, n + 1, s);
        assert(after[i].size == b.size);
        if s != b.size {
            let w = choose|w: int| 0 <= w < after.len() && (#[trigger] after[w]).size == s;
            if w < i {
                assert(before[w].size == s);
            } else {
                assert(before[w - 1].size == s);
            }
        }
    }
    assert(m2 =~= goal);
}

impl Pool {
    pub open spec fn wf(self) -> bool {
        sorted(self.buckets@)
    }

    pub fn new() -> (r: Self)
        ensures
            r.wf(),
            r@ == Map::<usize, Seq<Free>>::empty(),
    {
        Pool { buckets: Vec::new() }
    }

    /// Position of the first bucket whose size is not below `size`.
    fn find(&self, size: usize) -> (r: usize)
        requires
            self.wf(),
        ensures
            r <= self.buckets.len(),
            forall|i: int| 0 <= i < r ==> (#[trigger] self.buckets@[i]).size < size,
            forall|i: int|
                r <= i < self.buckets.len() ==> (#[trigger] self.buckets@[i]).size >= size,
    {
        let mut i: usize = 0;
        while i < self.buckets.len()
            invariant
                i <= self.buckets.len(),
                self.wf(),
                forall|j: int| 0 <= j < i ==> (#[trigger] self.buckets@[j]).size < size,
            decreases self.buckets.len() - i,
        {
            if self.buckets[i].size >= size {
                return i;
            }
            i = i + 1;
        }
        i
    }

    /// Whether any buffer of a size is free, finished or not.
    pub fn has(&self, size: usize) -> (r: bool)
        requires
            self.wf(),
        ensures
            r == has_free(self@, size),
    {
        let i: usize = self.find(size);
        proof {
            bucket_map_at(self.buckets@, self.buckets@.len(), size);
        }
        if i < self.buckets.len() && self.buckets[i].size == size {
            self.buckets[i].free.len() > 0
        } else {
            false
        }
    }

    /// Takes the first buffer of a size whose last use has completed.
    pub fn pop(&mut self, size: usize, completed: u64) -> (r: Option<usize>)
        requires
            old(self).wf(),
        ensures
            final(self).wf(),
            (final(self)@, r) == popped(old(self)@, size, completed),
    {
        let i: usize = self.find(size);
        proof {
            bucket_map_at(self.buckets@, self.buckets@.len(), size);
        }
        if i >= self.buckets.len() || self.buckets[i].size != size {
            return None;
        }
        let n: usize = self.buckets[i].free.len();
        let mut k: usize = 0;
        while k < n
            invariant
                k <= n,
                i < self.buckets.len(),
                n == self.buckets@[i as int].free.len(),
                self.buckets@ == old(self).buckets@,
                first_done(self.buckets@[i as int].free@, completed, 0) == first_done(
                    self.buckets@[i as int].free@,
                    completed,
                    k as nat,
                ),
                sorted(self.buckets@),
                self@.contains_key(size),
                self@[size] == self.buckets@[i as int].free@,
                self.buckets@[i as int].size == size,
            decreases n - k,
        {
            if self.buckets[i].free[k].gen <= completed {
                let ghost before = self.buckets@;
                let mut b = self.buckets.remove(i);
                let f = b.free.remove(k);
                self.buckets.insert(i, b);
                proof {
                    bucket_changed(before, self.buckets@, i as int);
                    assert(self.buckets@[i as int].free@ =~= before[i as int].free@.remove(
                        k as int,
                    ));
                }
                return Some(f.buffer);
            }
            k = k + 1;
        }
        None
    }

    /// Adds a free buffer behind those of its size.
    pub fn push(&mut self, size: usize, f: Free)
        requires
            old(self).wf(),
        ensures
            final(self).wf(),
            final(self)@ == pushed(old(self)@, size, f),
    {
        let i: usize = self.find(size);
        let ghost before = self.buckets@;
        if i < self.buckets.len() && self.buckets[i].size == size {
            let mut b = self.buckets.remove(i);
            b.free.push(f);
            self.buckets.insert(i, b);
            proof {
                bucket_changed(before, self.buckets@, i as int);
            }
        } else {
            let mut v: Vec<Free> = Vec::new();
            v.push(f);
            let b = Bucket { size, free: v };
            proof {
                assert(v@ =~= seq![f]);
                assert forall|j: int| i <= j < before.len() implies (#[trigger] before[j]).size
                    > size by {
                    if j > i {
                        assert(before[i as int].size < before[j].size);
                    }
                }
                bucket_inserted(before, i as int, b);
            }
            self.buckets.insert(i, b);
        }
    }

    /// Sizes in ascending order, each with its number of free buffers.
    pub fn snapshot(&self) -> (r: Vec<(usize, usize)>)
        requires
            self.wf(),
        ensures
            forall|i: int, j: int|
                0 <= i < j < r@.len() ==> (#[trigger] r@[i]).0 < (#[trigger] r@[j]).0,
            forall|i: int|
                0 <= i < r@.len() ==> self@.contains_key((#[trigger] r@[i]).0)
                    && self@[r@[i].0].len() == r@[i].1,
            forall|k: usize| #[trigger]
                self@.contains_key(k) ==> exists|i: int|
                    0 <= i < r@.len() && (#[trigger] r@[i]).0 == k,
    {
        let mut out: Vec<(usize, usize)> = Vec::new();
        let mut i: usize = 0;
        while i < self.buckets.len()
            invariant
                i <= self.buckets.len(),
                self.wf(),
                out.len() == i,
                forall|j: int|
                    0 <= j < i ==> (#[trigger] out@[j]).0 == self.buckets@[j].size && out@[j].1
                        == self.buckets@[j].free@.len(),
            decreases self.buckets.len() - i,
        {
            out.push((self.buckets[i].size, self.buckets[i].free.len()));
            i = i + 1;
        }
        proof {
            let b = self.buckets@;
            assert forall|p: int, q: int| 0 <= p < q < out@.len() implies (#[trigger] out@[p]).0 < (
            #[trigger] out@[q]).0 by {
                assert(b[p].size < b[q].size);
            }
            assert forall|p: int| 0 <= p < out@.len() implies self@.contains_key(
                (#[trigger] out@[p]).0,
            ) && self@[out@[p].0].len() == out@[p].1 by {
                bucket_map_at(b, b.len(), b[p].size);
            }
            assert forall|k: usize| #[trigger] self@.contains_key(k) implies exists|p: int|
                0 <= p < out@.len() && (#[trigger] out@[p]).0 == k by {
                bucket_map_at(b, b.len(), k);
                let w = choose|w: int| 0 <= w < b.len() && (#[trigger] b[w]).size == k;
                assert(out@[w].0 == k);
            }
        }
        out
    }
}

} // verus!
