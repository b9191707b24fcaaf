//! Positions at which the buffers of a kernel are bound: the inputs, the
//! output, the scalars, and a description of each input and of the output.
//! Kernel sources declare them there, and launches bind them there.

use vstd::prelude::*;

verus! {

pub open spec fn output_at(inputs: nat) -> nat {
    inputs
}

pub open spec fn scalars_at(inputs: nat) -> nat {
    inputs + 1
}

/// Position of the description of input `i`; that of the output comes behind
/// those of all inputs.
pub open spec fn meta_at(inputs: nat, i: nat) -> nat {
    inputs + 2 + i
}

/// A buffer of a kernel.
#[derive(Clone, Copy, Debug, PartialEq, Eq, Structural)]
pub enum Bound {
    Input(usize),
    Output,
    Scalars,
    InputMeta(usize),
    OutputMeta,
}

impl Bound {
    /// Whether a kernel with so many inputs has the buffer.
    pub open spec fn belongs(self, inputs: nat) -> bool {
        match self {
            Bound::Input(i) => i < inputs,
            Bound::InputMeta(i) => i < inputs,
            _ => true,
        }
    }

    pub open spec fn at(self, inputs: nat) -> nat {
        match self {
            Bound::Input(i) => i as nat,
            Bound::Output => output_at(inputs),
            Bound::Scalars => scalars_at(inputs),
            Bound::InputMeta(i) => meta_at(inputs, i as nat),
            Bound::OutputMeta => meta_at(inputs, inputs),
        }
    }

    /// Position of a buffer of a kernel.
    pub fn position(self, inputs: usize) -> (r: usize)
        requires
            self.belongs(inputs as nat),
            2 * inputs + 2 <= usize::MAX,
        ensures
            r == self.at(inputs as nat),
    {
        match self {
            Bound::Input(i) => i,
            Bound::Output => inputs,
            Bound::Scalars => inputs + 1,
            Bound::InputMeta(i) => inputs + 2 + i,
            Bound::OutputMeta => inputs + 2 + inputs,
        }
    }
}

/// No two buffers of a kernel are bound at one position.
pub proof fn bindings_are_distinct(a: Bound, b: Bound, inputs: nat)
    requires
        a.belongs(inputs),
        b.belongs(inputs),
        a != b,
    ensures
        a.at(inputs) != b.at(inputs),
{
}

} // verus!
