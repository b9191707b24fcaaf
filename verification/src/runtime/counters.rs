//! Counters of what the runtime has done.

use vstd::prelude::*;

verus! {

/// Counts of host-side tensor loops and of reference count operations. They
/// wrap around.
#[derive(Clone, Copy, Debug, PartialEq, Eq, Structural)]
pub struct Counters {
    pub cpu_compute: i64,
    pub retains: i64,
    pub releases: i64,
    pub allocs: i64,
}

impl Counters {
    pub open spec fn zero() -> Counters {
        Counters { cpu_compute: 0, retains: 0, releases: 0, allocs: 0 }
    }

    pub open spec fn retained(self) -> Counters {
        Counters { retains: self.retains.wrapping_add(1), ..self }
    }

    pub open spec fn released(self) -> Counters {
        Counters { releases: self.releases.wrapping_add(1), ..self }
    }

    pub open spec fn allocated(self) -> Counters {
        Counters { allocs: self.allocs.wrapping_add(1), ..self }
    }

    pub fn new() -> (r: Self)
        ensures
            r == Counters::zero(),
    {
        Counters { cpu_compute: 0, retains: 0, releases: 0, allocs: 0 }
    }

    /// Counts a host-side loop over tensor elements.
    pub fn cpu_compute_inc(&mut self)
        ensures
            *final(self) == (Counters {
                cpu_compute: old(self).cpu_compute.wrapping_add(1),
                ..*old(self)
            }),
    {
        self.cpu_compute = self.cpu_compute.wrapping_add(1);
    }

    pub fn malus_cpu_compute_count(&self) -> (r: i64)
        ensures
            r == self.cpu_compute,
    {
        self.cpu_compute
    }

    pub fn malus_cpu_compute_reset(&mut self)
        ensures
            *final(self) == (Counters { cpu_compute: 0, ..*old(self) }),
    {
        self.cpu_compute = 0;
    }

    pub fn retain_inc(&mut self)
        ensures
            *final(self) == old(self).retained(),
    {
        self.retains = self.retains.wrapping_add(1);
    }

    pub fn release_inc(&mut self)
        ensures
            *final(self) == old(self).released(),
    {
        self.releases = self.releases.wrapping_add(1);
    }

    pub fn alloc_inc(&mut self)
        ensures
            *final(self) == old(self).allocated(),
    {
        self.allocs = self.allocs.wrapping_add(1);
    }

    /// Retains, releases and allocations.
    pub fn malus_rc_counts(&self) -> (r: (i64, i64, i64))
        ensures
            r == (self.retains, self.releases, self.allocs),
    {
        (self.retains, self.releases, self.allocs)
    }

    pub fn malus_rc_reset(&mut self)
        ensures
            *final(self) == old(self).rc_reset(),
    {
        self.retains = 0;
        self.releases = 0;
        self.allocs = 0;
    }
}

/// An operation that the counters count.
pub enum Counted {
    Retain,
    Release,
    Alloc,
}

impl Counters {
    /// Counters after a sequence of counted operations.
    pub open spec fn counted(self, ops: Seq<Counted>) -> Counters
        decreases ops.len(),
    {
        if ops.len() == 0 {
            self
        } else {
            let before = self.counted(ops.drop_last());
            match ops.last() {
                Counted::Retain => before.retained(),
                Counted::Release => before.released(),
                Counted::Alloc => before.allocated(),
            }
        }
    }

    /// Counters after a reset of the reference counts.
    pub open spec fn rc_reset(self) -> Counters {
        Counters { cpu_compute: self.cpu_compute, ..Counters::zero() }
    }
}

/// How often an operation occurs.
pub open spec fn occurrences(ops: Seq<Counted>, op: Counted) -> nat
    decreases ops.len(),
{
    if ops.len() == 0 {
        0
    } else if ops.last() == op {
        occurrences(ops.drop_last(), op) + 1
    } else {
        occurrences(ops.drop_last(), op)
    }
}

proof fn occurrences_fit(ops: Seq<Counted>, op: Counted)
    ensures
        occurrences(ops, op) <= ops.len(),
    decreases ops.len(),
{
    if ops.len() > 0 {
        occurrences_fit(ops.drop_last(), op);
    }
}

/// After a reset and any sequence of retains, releases and allocations, the
/// counts are the numbers of each, and nothing else is counted.
pub proof fn counts_after_reset(c: Counters, ops: Seq<Counted>)
    requires
        ops.len() <= i64::MAX,
    ensures
        ({
            let r = c.rc_reset().counted(ops);
            &&& r.retains == occurrences(ops, Counted::Retain)
            &&& r.releases == occurrences(ops, Counted::Release)
            &&& r.allocs == occurrences(ops, Counted::Alloc)
            &&& r.cpu_compute == c.cpu_compute
        }),
    decreases ops.len(),
{
    occurrences_fit(ops, Counted::Retain);
    occurrences_fit(ops, Counted::Release);
    occurrences_fit(ops, Counted::Alloc);
    if ops.len() > 0 {
        counts_after_reset(c, ops.drop_last());
    }
}

} // verus!
