//! What giving up a value hands back to the runtime.

use crate::codegen_cpu::inst::ClTy;
use crate::codegen_cpu::machine;
use crate::codegen_cpu::machine::{Act, Cells};
use crate::codegen_cpu::state;
use crate::codegen_cpu::symbols::RtSym;
use crate::typed::{DropVariant, ResolvedTy};
use vstd::prelude::*;

verus! {

/// A call of the runtime on one handle.
pub open spec fn act(sym: RtSym, handle: int) -> Act {
    Act { sym, args: seq![handle] }
}

/// The word that a cell holds.
pub open spec fn word(cells: Cells, at: int) -> int {
    cells[at].number()
}

/// Whether a cell holds a word.
pub open spec fn has_word(cells: Cells, at: int) -> bool {
    machine::holds_value(cells, ClTy::I64, at)
}

/// The cell of a slot of a box.
pub open spec fn slot_at(handle: int, base: i32, i: nat) -> int {
    handle + state::slot_offset(base, i)
}

impl ResolvedTy {
    /// Whether a slot of this type holds something to release.
    pub open spec fn owns_in_slot(self) -> bool {
        self is Tensor || self is Struct || self is Enum
    }

    /// The calls that give up a tensor or a box: what the slots of a box hold
    /// first, then the box.
    pub open spec fn gives_up(self, cells: Cells, handle: int) -> Seq<Act>
        decreases self, 0nat,
    {
        match self {
            ResolvedTy::Tensor { dtype } => seq![act(RtSym::TensorRelease, handle)],
            ResolvedTy::Struct { name, fields } => slots_given_up(
                cells,
                handle,
                8,
                fields@,
                0,
            ).push(act(RtSym::AggregateRelease, handle)),
            ResolvedTy::Enum { name, variants } => enum_given_up(cells, handle, variants@),
            _ => Seq::empty(),
        }
    }

    /// Whether memory holds what giving up such a value reads.
    pub open spec fn is_held(self, cells: Cells, handle: int) -> bool
        decreases self, 0nat,
    {
        match self {
            ResolvedTy::Struct { name, fields } => slots_held(cells, handle, 8, fields@, 0),
            ResolvedTy::Enum { name, variants } => enum_held(cells, handle, variants@),
            _ => true,
        }
    }

    /// The calls that give up what a slot holds.
    pub open spec fn slot_gives_up(self, cells: Cells, at: int) -> Seq<Act>
        decreases self, 1nat,
    {
        if self.owns_in_slot() {
            self.gives_up(cells, word(cells, at))
        } else {
            Seq::empty()
        }
    }

    /// Whether a slot and what it leads to can be read.
    pub open spec fn slot_held(self, cells: Cells, at: int) -> bool
        decreases self, 1nat,
    {
        self.owns_in_slot() ==> has_word(cells, at) && self.is_held(cells, word(cells, at))
    }

    /// The calls that give up an element of an array; an inner array goes with
    /// its own elements.
    pub open spec fn element_gives_up(self, cells: Cells, handle: int) -> Seq<Act>
        decreases self, 0nat,
    {
        match self {
            ResolvedTy::Array { elem, len } => array_given_up(cells, handle, *elem, len),
            _ => self.gives_up(cells, handle),
        }
    }

    pub open spec fn element_held(self, cells: Cells, handle: int) -> bool
        decreases self, 0nat,
    {
        match self {
            ResolvedTy::Array { elem, len } => array_held(cells, handle, *elem, len),
            _ => self.is_held(cells, handle),
        }
    }
}

/// The calls that give up the slots of a box from position `i` on.
pub open spec fn slots_given_up(
    cells: Cells,
    handle: int,
    base: i32,
    fields: Seq<(String, ResolvedTy)>,
    i: nat,
) -> Seq<Act>
    decreases fields, fields.len() - i,
{
    if i >= fields.len() {
        Seq::empty()
    } else {
        fields[i as int].1.slot_gives_up(cells, slot_at(handle, base, i)) + slots_given_up(
            cells,
            handle,
            base,
            fields,
            i + 1,
        )
    }
}

pub open spec fn slots_held(
    cells: Cells,
    handle: int,
    base: i32,
    fields: Seq<(String, ResolvedTy)>,
    i: nat,
) -> bool
    decreases fields, fields.len() - i,
{
    i < fields.len() ==> {
        &&& fields[i as int].1.slot_held(cells, slot_at(handle, base, i))
        &&& slots_held(cells, handle, base, fields, i + 1)
    }
}

/// The calls that give up an enum: the slots of the variant that its tag
/// names, then the box.
pub open spec fn enum_given_up(
    cells: Cells,
    handle: int,
    variants: Seq<(String, Vec<(String, ResolvedTy)>)>,
) -> Seq<Act>
    decreases variants, variants.len() + 1,
{
    let tag = word(cells, handle + 8);
    (if 0 <= tag < variants.len() {
        slots_given_up(cells, handle, 16, variants[tag].1@, 0)
    } else {
        Seq::empty()
    }).push(act(RtSym::AggregateRelease, handle))
}

/// Whether the tag of an enum is one of its variants, and the slots of that
/// variant can be read.
pub open spec fn enum_held(
    cells: Cells,
    handle: int,
    variants: Seq<(String, Vec<(String, ResolvedTy)>)>,
) -> bool
    decreases variants, variants.len() + 1,
{
    let tag = word(cells, handle + 8);
    &&& machine::holds_value(cells, ClTy::I32, handle + 8)
    &&& variants.len() <= i32::MAX
    &&& variants.len() > 0 ==> 0 <= tag < variants.len() && slots_held(
        cells,
        handle,
        16,
        variants[tag].1@,
        0,
    )
}

/// The calls that give up an array: its elements in order, where they own
/// something, then the array.
pub open spec fn array_given_up(cells: Cells, handle: int, elem: ResolvedTy, len: usize) -> Seq<Act>
    decreases elem, len + 1,
{
    (if elem.owns() {
        elements_given_up(cells, handle, elem, len as nat)
    } else {
        Seq::empty()
    }).push(act(RtSym::HeapFree, handle))
}

/// The calls that give up the first `n` elements of an array.
pub open spec fn elements_given_up(cells: Cells, handle: int, elem: ResolvedTy, n: nat) -> Seq<Act>
    decreases elem, n,
{
    if n == 0 {
        Seq::empty()
    } else {
        elements_given_up(cells, handle, elem, (n - 1) as nat) + elem.element_gives_up(
            cells,
            word(cells, handle + 8 * (n - 1)),
        )
    }
}

/// Whether an array lies in memory and what its elements lead to can be read.
pub open spec fn array_held(cells: Cells, handle: int, elem: ResolvedTy, len: usize) -> bool
    decreases elem, len + 1,
{
    elem.owns() ==> {
        &&& 0 <= handle
        &&& handle + 8 * len <= i64::MAX
        &&& elements_held(cells, handle, elem, len as nat)
    }
}

pub open spec fn elements_held(cells: Cells, handle: int, elem: ResolvedTy, n: nat) -> bool
    decreases elem, n,
{
    n > 0 ==> {
        &&& elements_held(cells, handle, elem, (n - 1) as nat)
        &&& has_word(cells, handle + 8 * (n - 1))
        &&& elem.element_held(cells, word(cells, handle + 8 * (n - 1)))
    }
}

/// The calls that give up the listed slots of a box from position `k` on.
pub open spec fn listed_given_up(
    cells: Cells,
    handle: int,
    base: i32,
    slots: Seq<(usize, ResolvedTy)>,
    k: nat,
) -> Seq<Act>
    decreases slots.len() - k,
{
    if k >= slots.len() {
        Seq::empty()
    } else {
        slots[k as int].1.slot_gives_up(
            cells,
            slot_at(handle, base, slots[k as int].0 as nat),
        ) + listed_given_up(cells, handle, base, slots, k + 1)
    }
}

pub open spec fn listed_held(
    cells: Cells,
    handle: int,
    base: i32,
    slots: Seq<(usize, ResolvedTy)>,
    k: nat,
) -> bool
    decreases slots.len() - k,
{
    k < slots.len() ==> {
        &&& slots[k as int].1.slot_held(cells, slot_at(handle, base, slots[k as int].0 as nat))
        &&& listed_held(cells, handle, base, slots, k + 1)
    }
}

/// The calls that give up a struct or a tuple: the listed slots, then the box.
pub open spec fn box_given_up(
    cells: Cells,
    handle: int,
    slots: Seq<(usize, ResolvedTy)>,
) -> Seq<Act> {
    listed_given_up(cells, handle, 8, slots, 0).push(act(RtSym::AggregateRelease, handle))
}

/// The first listed variant, from position `i` on, that a tag names.
pub open spec fn variant_of(variants: Seq<DropVariant>, tag: int, i: nat) -> nat
    decreases variants.len() - i,
{
    if i >= variants.len() || machine::wrap(ClTy::I32, variants[i as int].tag as int) == tag {
        i
    } else {
        variant_of(variants, tag, i + 1)
    }
}

/// As [`enum_given_up`], with the slots to release given.
pub open spec fn enum_listed_given_up(
    cells: Cells,
    handle: int,
    variants: Seq<DropVariant>,
) -> Seq<Act> {
    let at = variant_of(variants, word(cells, handle + 8), 0);
    (if at < variants.len() {
        listed_given_up(cells, handle, 16, variants[at as int].fields@, 0)
    } else {
        Seq::empty()
    }).push(act(RtSym::AggregateRelease, handle))
}

pub open spec fn enum_listed_held(cells: Cells, handle: int, variants: Seq<DropVariant>) -> bool {
    let at = variant_of(variants, word(cells, handle + 8), 0);
    &&& machine::holds_value(cells, ClTy::I32, handle + 8)
    &&& variants.len() > 0 ==> at < variants.len() && listed_held(
        cells,
        handle,
        16,
        variants[at as int].fields@,
        0,
    )
}

/// The tensor that a list holds at a position.
pub open spec fn list_item(cells: Cells, handle: int, i: int) -> int {
    word(cells, handle + 16 + 8 * i)
}

/// Whether a list holds something at a position.
pub open spec fn has_item(cells: Cells, handle: int, i: int) -> bool {
    has_word(cells, handle + 16 + 8 * i)
}

/// The calls that give up one reference to a list. At the last one every
/// tensor in it is released, once each and in order; then, in any case, the
/// reference is handed back.
pub open spec fn list_given_up(cells: Cells, handle: int, elem: ResolvedTy) -> Seq<Act> {
    (if word(cells, handle) == 1 && elem is Tensor {
        items_given_up(cells, handle, word(cells, handle + 8) as nat)
    } else {
        Seq::empty()
    }).push(act(RtSym::ListRelease, handle))
}

/// The calls that release the first `n` tensors of a list.
pub open spec fn items_given_up(cells: Cells, handle: int, n: nat) -> Seq<Act> {
    Seq::new(n, |i: int| act(RtSym::TensorRelease, list_item(cells, handle, i)))
}

/// Whether a list lies in memory.
pub open spec fn list_held(cells: Cells, handle: int, elem: ResolvedTy) -> bool {
    &&& machine::holds_cell(cells, ClTy::I64, handle)
    &&& word(cells, handle) == 1 && elem is Tensor ==> {
        let len = word(cells, handle + 8);
        &&& has_word(cells, handle + 8)
        &&& 0 <= handle
        &&& 0 <= len
        &&& handle + 16 + 8 * len <= i64::MAX
        &&& forall|i: int| 0 <= i < len ==> #[trigger] has_item(cells, handle, i)
    }
}

} // verus!
