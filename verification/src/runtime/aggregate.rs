//! Reference counts of heap boxes: structs, tuples, enums and lists.

use vstd::prelude::*;

verus! {

/// The count that a box begins with.
#[derive(Clone, Copy, Debug, PartialEq, Eq, Structural)]
pub struct RefCount {
    pub count: u64,
}

impl RefCount {
    /// A fresh box has one owner.
    pub fn aggregate_alloc() -> (r: Self)
        ensures
            r.count == 1,
    {
        RefCount { count: 1 }
    }

    pub open spec fn retained(self) -> RefCount {
        RefCount { count: self.count.wrapping_add(1) }
    }

    pub open spec fn released(self) -> RefCount {
        RefCount { count: self.count.wrapping_sub(1) }
    }

    /// `n` further owners.
    pub open spec fn retained_times(self, n: nat) -> RefCount
        decreases n,
    {
        if n == 0 {
            self
        } else {
            self.retained_times((n - 1) as nat).retained()
        }
    }

    /// One more owner.
    pub fn aggregate_retain(&mut self)
        ensures
            *final(self) == old(self).retained(),
    {
        self.count = self.count.wrapping_add(1);
    }

    /// One owner less; tells whether it was the last, so that the box goes.
    pub fn aggregate_release(&mut self) -> (last: bool)
        ensures
            *final(self) == old(self).released(),
            last == (old(self).count == 1),
    {
        let before: u64 = self.count;
        self.count = before.wrapping_sub(1);
        before == 1
    }

    /// One owner less; tells how many there were.
    pub fn list_release(&mut self) -> (before: u64)
        ensures
            *final(self) == old(self).released(),
            before == old(self).count,
    {
        let before: u64 = self.count;
        self.count = before.wrapping_sub(1);
        before
    }
}

/// A release undoes a retain.
pub proof fn release_undoes_retain(c: RefCount)
    ensures
        c.retained().released() == c,
{
}

/// A fresh box that was retained `n` times has `n + 1` owners, so only the
/// release that follows `n` others is the last.
pub proof fn owners_are_counted(n: nat)
    requires
        n < u64::MAX,
    ensures
        (RefCount { count: 1 }).retained_times(n).count == n + 1,
    decreases n,
{
    if n > 0 {
        owners_are_counted((n - 1) as nat);
    }
}

} // verus!
