//! A map from numbers to values, kept in ascending order of its keys.

use vstd::prelude::*;

verus! {

#[derive(Debug)]
pub struct SortedMap<V> {
    pub entries: Vec<(u64, V)>,
}

/// The first `n` entries as a map.
pub open spec fn entry_map<V>(e: Seq<(u64, V)>, n: nat) -> Map<u64, V>
    decreases n,
{
    if n == 0 || n > e.len() {
        Map::empty()
    } else {
        entry_map(e, (n - 1) as nat).insert(e[n - 1].0, e[n - 1].1)
    }
}

/// Keys in ascending order.
pub open spec fn ascending<V>(e: Seq<(u64, V)>) -> bool {
    forall|i: int, j: int| 0 <= i < j < e.len() ==> (#[trigger] e[i]).0 < (#[trigger] e[j]).0
}

impl<V> View for SortedMap<V> {
    type V = Map<u64, V>;

    open spec fn view(&self) -> Map<u64, V> {
        entry_map(self.entries@, self.entries@.len())
    }
}

pub proof fn entry_map_at<V>(e: Seq<(u64, V)>, n: nat, k: u64)
    requires
        ascending(e),
        n <= e.len(),
    ensures
        entry_map(e, n).contains_key(k) <==> exists|i: int|
            0 <= i < n && (#[trigger] e[i]).0 == k,
        forall|i: int| 0 <= i < n && (#[trigger] e[i]).0 == k ==> entry_map(e, n)[k] == e[i].1,
    decreases n,
{
    if n > 0 {
        entry_map_at(e, (n - 1) as nat, k);
        if e[n - 1].0 == k {
            assert(entry_map(e, n).contains_key(k));
        }
    }
}

proof fn entry_changed<V>(before: Seq<(u64, V)>, i: int, v: V)
    requires
        ascending(before),
        0 <= i < before.len(),
    ensures
        ascending(before.update(i, (before[i].0, v))),
        entry_map(before.update(i, (before[i].0, v)), before.len()) == entry_map(
            before,
            before.len(),
        ).insert(before[i].0, v),
{
    let after = before.update(i, (before[i].0, v));
    let n = before.len();
    assert forall|p: int, q: int| 0 <= p < q < after.len() implies (#[trigger] after[p]).0 < (
    #[trigger] after[q]).0 by {
        assert(before[p].0 < before[q].0);
    }
    let m = entry_map(before, n);
    let m2 = entry_map(after, n);
    let goal = m.insert(before[i].0, v);
    assert forall|s: u64| #[trigger] m2.contains_key(s) <==> goal.contains_key(s) by {
        entry_map_at(before, n, s);
        entry_map_at(after, n, s);
        if m.contains_key(s) {
            let w = choose|w: int| 0 <= w < before.len() && (#[trigger] before[w]).0 == s;
            assert(after[w].0 == s);
        }
        assert(after[i].0 == before[i].0);
        if m2.contains_key(s) {
            let w = choose|w: int| 0 <= w < after.len() && (#[trigger] after[w]).0 == s;
            assert(before[w].0 == s);
        }
    }
    assert forall|s: u64| #[trigger] m2.contains_key(s) implies m2[s] == goal[s] by {
        entry_map_at(before, n, s);
        entry_map_at(after, n, s);
        let w = choose|w: int| 0 <= w < after.len() && (#[trigger] after[w]).0 == s;
        assert(before[w].0 == s);
        if w < i {
            assert(before[w].0 < before[i].0);
        } else if w > i {
            assert(before[i].0 < before[w].0);
        }
    }
    assert(m2 =~= goal);
}

proof fn entry_inserted<V>(before: Seq<(u64, V)>, i: int, k: u64, v: V)
    requires
        ascending(before),
        0 <= i <= before.len(),
        forall|j: int| 0 <= j < i ==> (#[trigger] before[j]).0 < k,
        forall|j: int| i <= j < before.len() ==> (#[trigger] before[j]).0 > k,
    ensures
        ascending(before.insert(i, (k, v))),
        entry_map(before.insert(i, (k, v)), before.len() + 1) == entry_map(
            before,
            before.len(),
        ).insert(k, v),
{
    let after = before.insert(i, (k, v));
    let n = before.len();
    assert forall|p: int, q: int| 0 <= p < q < after.len() implies (#[trigger] after[p]).0 < (
    #[trigger] after[q]).0 by {
        let p0 = if p < i {
            p
        } else {
            p - 1
        };
        let q0 = if q < i {
            q
        } else {
            q - 1
        };
        if p != i && q != i {
            assert(before[p0].0 < before[q0].0);
        } else if p == i {
            assert(before[q0].0 > k);
        } else {
            assert(before[p0].0 < k);
        }
    }
    let m = entry_map(before, n);
    let m2 = entry_map(after, n + 1);
    let goal = m.insert(k, v);
    assert forall|s: u64| #[trigger] m2.contains_key(s) <==> goal.contains_key(s) by {
        entry_map_at(before, n, s);
        entry_map_at(after, n + 1, s);
        if m.contains_key(s) {
            let w = choose|w: int| 0 <= w < before.len() && (#[trigger] before[w]).0 == s;
            if w < i {
                assert(after[w].0 == s);
            } else {
                assert(after[w + 1].0 == s);
            }
        }
        assert(after[i].0 == k);
        if m2.contains_key(s) && s != k {
            let w = choose|w: int| 0 <= w < after.len() && (#[trigger] after[w]).0 == s;
            if w < i {
                assert(before[w].0 == s);
            } else {
                assert(before[w - 1].0 == s);
            }
        }
    }
    assert forall|s: u64| #[trigger] m2.contains_key(s) implies m2[s] == goal[s] by {
        entry_map_at(before, n, s);
        entry_map_at(after, n + 1, s);
        assert(after[i].0 == k);
        if s != k {
            let w = choose|w: int| 0 <= w < after.len() && (#[trigger] after[w]).0 == s;
            if w < i {
                assert(before[w].0 == s);
            } else {
                assert(before[w - 1].0 == s);
            }
        }
    }
    assert(m2 =~= goal);
}

impl<V> SortedMap<V> {
    pub open spec fn wf(self) -> bool {
        ascending(self.entries@)
    }

    pub fn new() -> (r: Self)
        ensures
            r.wf(),
            r@ == Map::<u64, V>::empty(),
    {
        SortedMap { entries: Vec::new() }
    }

    /// Position of the first key that is not below `k`.
    fn find(&self, k: u64) -> (r: usize)
        requires
            self.wf(),
        ensures
            r <= self.entries.len(),
            forall|i: int| 0 <= i < r ==> (#[trigger] self.entries@[i]).0 < k,
            forall|i: int| r <= i < self.entries.len() ==> (#[trigger] self.entries@[i]).0 >= k,
    {
        let mut lo: usize = 0;
        let mut hi: usize = self.entries.len();
        while lo < hi
            invariant
                lo <= hi <= self.entries.len(),
                self.wf(),
                forall|i: int| 0 <= i < lo ==> (#[trigger] self.entries@[i]).0 < k,
                forall|i: int|
                    hi <= i < self.entries.len() ==> (#[trigger] self.entries@[i]).0 >= k,
            decreases hi - lo,
        {
            let mid: usize = lo + (hi - lo) / 2;
            if self.entries[mid].0 < k {
                proof {
                    assert forall|i: int| 0 <= i < mid + 1 implies (#[trigger] self.entries@[i]).0
                        < k by {
                        if i < mid {
                            assert(self.entries@[i].0 < self.entries@[mid as int].0);
                        }
                    }
                }
                lo = mid + 1;
            } else {
                proof {
                    assert forall|i: int| mid <= i < self.entries.len() implies (
                    #[trigger] self.entries@[i]).0 >= k by {
                        if i > mid {
                            assert(self.entries@[mid as int].0 < self.entries@[i].0);
                        }
                    }
                }
                hi = mid;
            }
        }
        lo
    }

    pub fn get(&self, k: u64) -> (r: Option<&V>)
        requires
            self.wf(),
        ensures
            match r {
                Some(v) => self@.contains_key(k) && *v == self@[k],
                None => !self@.contains_key(k),
            },
    {
        let i: usize = self.find(k);
        proof {
            entry_map_at(self.entries@, self.entries@.len(), k);
        }
        if i < self.entries.len() && self.entries[i].0 == k {
            Some(&self.entries[i].1)
        } else {
            None
        }
    }

    /// Sets the value of a key.
    pub fn insert(&mut self, k: u64, v: V)
        requires
            old(self).wf(),
        ensures
            final(self).wf(),
            final(self)@ == old(self)@.insert(k, v),
    {
        let i: usize = self.find(k);
        let ghost before = self.entries@;
        if i < self.entries.len() && self.entries[i].0 == k {
            self.entries.set(i, (k, v));
            proof {
                entry_changed(before, i as int, v);
            }
        } else {
            proof {
                assert forall|j: int| i <= j < before.len() implies (#[trigger] before[j]).0
                    > k by {
                    if j > i {
                        assert(before[i as int].0 < before[j].0);
                    }
                }
                entry_inserted(before, i as int, k, v);
            }
            self.entries.insert(i, (k, v));
        }
    }
}

} // verus!
