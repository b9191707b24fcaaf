//! Generations of device work. Work is encoded into an open command buffer;
//! opening one starts a generation, and a barrier completes all of them.

use vstd::prelude::*;

verus! {

#[derive(Clone, Copy, Debug, PartialEq, Eq, Structural)]
pub struct Gens {
    /// Generation of the command buffer that was opened last.
    pub encode: u64,
    /// Latest generation whose work has finished.
    pub completed: u64,
    /// Whether a command buffer is open.
    pub open: bool,
    /// Whether every encoded operation is followed by a barrier.
    pub sync: bool,
}

impl Gens {
    pub open spec fn start(sync: bool) -> Gens {
        Gens { encode: 0, completed: 0, open: false, sync }
    }

    /// With a command buffer open.
    pub open spec fn opened(self) -> Gens {
        if self.open {
            self
        } else {
            Gens { encode: self.encode.wrapping_add(1), open: true, ..self }
        }
    }

    /// After a barrier.
    pub open spec fn flushed(self) -> Gens {
        if self.open {
            Gens { completed: self.encode, open: false, ..self }
        } else {
            self
        }
    }

    /// After an operation was encoded.
    pub open spec fn settled(self) -> Gens {
        if self.sync {
            self.flushed()
        } else {
            self
        }
    }

    /// Whether work of a generation may still be running.
    pub open spec fn pending(self, gen: u64) -> bool {
        gen > self.completed
    }

    /// No generation completes before it is encoded, and while no command
    /// buffer is open all work has completed.
    pub open spec fn ordered(self) -> bool {
        &&& self.completed <= self.encode
        &&& self.open ==> self.completed < self.encode
        &&& !self.open ==> self.completed == self.encode
    }

    pub fn new(sync: bool) -> (r: Self)
        ensures
            r == Gens::start(sync),
            r.ordered(),
    {
        Gens { encode: 0, completed: 0, open: false, sync }
    }

    /// Opens a command buffer where none is open. Returns the generation that
    /// is being encoded.
    pub fn ensure_command_buffer(&mut self) -> (r: u64)
        ensures
            *final(self) == old(self).opened(),
            r == final(self).encode,
    {
        if !self.open {
            self.encode = self.encode.wrapping_add(1);
            self.open = true;
        }
        self.encode
    }

    /// Notes that all encoded work was committed and has finished. Returns
    /// whether there was any to commit.
    pub fn gpu_barrier(&mut self) -> (r: bool)
        ensures
            *final(self) == old(self).flushed(),
            r == old(self).open,
    {
        if self.open {
            self.open = false;
            self.completed = self.encode;
            true
        } else {
            false
        }
    }

    /// What follows an encoded operation. Returns whether to commit at once.
    pub fn settle(&mut self) -> (r: bool)
        ensures
            *final(self) == old(self).settled(),
            r == (old(self).sync && old(self).open),
    {
        if self.sync {
            self.gpu_barrier()
        } else {
            false
        }
    }

    pub fn is_pending(&self, gen: u64) -> (r: bool)
        ensures
            r == self.pending(gen),
    {
        gen > self.completed
    }
}

/// Opening and flushing keep generations in order.
pub proof fn gens_stay_ordered(g: Gens)
    requires
        g.ordered(),
        g.encode < u64::MAX,
    ensures
        g.opened().ordered(),
        g.flushed().ordered(),
        g.settled().ordered(),
        g.encode <= g.opened().encode,
        g.completed <= g.flushed().completed,
{
}

/// What is encoded now is pending until the next barrier, and nothing that
/// was ever encoded is pending after one.
pub proof fn pending_until_barrier(g: Gens, gen: u64)
    requires
        g.ordered(),
        g.encode < u64::MAX,
        gen <= g.encode,
    ensures
        g.opened().pending(g.opened().encode),
        !g.flushed().pending(gen),
        !g.opened().flushed().pending(g.opened().encode),
{
}

} // verus!
