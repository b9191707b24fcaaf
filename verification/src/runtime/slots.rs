//! The table of backward functions.

use crate::runtime::tags::{BwdSlot, N_BWD_SLOTS};
use vstd::prelude::*;

verus! {

/// Addresses of backward functions by slot; zero where none is registered.
#[derive(Debug)]
pub struct SlotTable {
    pub slots: Vec<usize>,
}

impl SlotTable {
    pub open spec fn wf(self) -> bool {
        self.slots@.len() == N_BWD_SLOTS
    }

    /// An empty table.
    pub fn new() -> (r: Self)
        ensures
            r.wf(),
            forall|i: int| 0 <= i < N_BWD_SLOTS ==> #[trigger] r.slots@[i] == 0,
    {
        SlotTable { slots: vec![0;N_BWD_SLOTS] }
    }

    /// Sets the function of a slot.
    pub fn tape_register_backward_fn(&mut self, slot: usize, func: usize)
        requires
            old(self).wf(),
            slot < N_BWD_SLOTS,
        ensures
            final(self).wf(),
            final(self).slots@ == old(self).slots@.update(slot as int, func),
    {
        self.slots.set(slot, func);
    }

    /// The function of a slot, where one is registered.
    pub fn bwd_slot(&self, slot: BwdSlot) -> (r: Option<usize>)
        requires
            self.wf(),
        ensures
            r == (if self.slots@[slot.tag()] != 0 {
                Some(self.slots@[slot.tag()])
            } else {
                None
            }),
    {
        let i: usize = slot.to_tag() as usize;
        let p: usize = self.slots[i];
        if p != 0 {
            Some(p)
        } else {
            None
        }
    }
}

} // verus!
