//! Laws of boxes: what is written is read back, and what is given up is given
//! up once.

use crate::codegen_cpu::flow;
use crate::codegen_cpu::inst::ClTy;
use crate::codegen_cpu::machine;
use crate::codegen_cpu::machine::{Act, Cell, Cells, Heap};
use crate::codegen_cpu::meaning;
use crate::codegen_cpu::meaning::World;
use crate::codegen_cpu::releases;
use crate::codegen_cpu::state;
use crate::codegen_cpu::symbols::RtSym;
use crate::runtime::aggregate::RefCount;
use crate::typed::{ResolvedTy, ScalarTy, TypedAssignTarget, TypedExpr, TypedMatchArm};
use vstd::prelude::*;

verus! {

/// When the last reference to a list of tensors is given up, each of its
/// tensors is released once, in order, and then the list is handed back. While
/// there are other references only the list is handed back.
pub proof fn lists_release_their_tensors_once(cells: Cells, handle: int, dtype: ScalarTy)
    requires
        releases::list_held(cells, handle, ResolvedTy::Tensor { dtype }),
    ensures
        ({
            let acts = releases::list_given_up(cells, handle, ResolvedTy::Tensor { dtype });
            let len = releases::word(cells, handle + 8);
            let back = releases::act(RtSym::ListRelease, handle);
            if releases::word(cells, handle) == 1 {
                &&& acts.len() == len + 1
                &&& acts[len] == back
                &&& forall|i: int|
                    0 <= i < len ==> #[trigger] acts[i] == releases::act(
                        RtSym::TensorRelease,
                        releases::list_item(cells, handle, i),
                    )
            } else {
                acts == seq![back]
            }
        }),
{
    let acts = releases::list_given_up(cells, handle, ResolvedTy::Tensor { dtype });
    if releases::word(cells, handle) != 1 {
        assert(acts =~= seq![releases::act(RtSym::ListRelease, handle)]);
    }
}

/// When an array of tensors is given up, each of its tensors is released once,
/// in order, and then the array is freed.
pub proof fn arrays_release_their_tensors_once(
    cells: Cells,
    handle: int,
    dtype: ScalarTy,
    len: usize,
)
    ensures
        ({
            let acts = releases::array_given_up(
                cells,
                handle,
                ResolvedTy::Tensor { dtype },
                len,
            );
            &&& acts.len() == len + 1
            &&& acts[len as int] == releases::act(RtSym::HeapFree, handle)
            &&& forall|i: int|
                0 <= i < len ==> #[trigger] acts[i] == releases::act(
                    RtSym::TensorRelease,
                    releases::word(cells, handle + 8 * i),
                )
        }),
{
    elements_once(cells, handle, ResolvedTy::Tensor { dtype }, len as nat);
}

proof fn elements_once(cells: Cells, handle: int, elem: ResolvedTy, n: nat)
    requires
        elem is Tensor,
    ensures
        ({
            let acts = releases::elements_given_up(cells, handle, elem, n);
            &&& acts.len() == n
            &&& forall|i: int|
                0 <= i < n ==> #[trigger] acts[i] == releases::act(
                    RtSym::TensorRelease,
                    releases::word(cells, handle + 8 * i),
                )
        }),
    decreases n,
{
    if n > 0 {
        elements_once(cells, handle, elem, (n - 1) as nat);
        let x = releases::word(cells, handle + 8 * (n - 1));
        assert(elem.element_gives_up(cells, x) == elem.gives_up(cells, x));
        assert(elem.gives_up(cells, x) == seq![releases::act(RtSym::TensorRelease, x)]);
    }
}

/// Whether calls ask for no box.
pub open spec fn ask_for_nothing(acts: Seq<Act>) -> bool {
    forall|k: int| 0 <= k < acts.len() ==> !((#[trigger] acts[k]).sym is AggregateAlloc)
}

/// Calls that ask for no box leave the values in memory alone.
pub proof fn calls_keep_values(h: Heap, acts: Seq<Act>)
    requires
        ask_for_nothing(acts),
    ensures
        machine::same_values(h.cells, h.calling(acts).cells),
    decreases acts.len(),
{
    if acts.len() > 0 {
        let first = acts.drop_last();
        assert forall|k: int| 0 <= k < first.len() implies !((#[trigger] first[k]).sym
            is AggregateAlloc) by {
            assert(acts[k] == first[k]);
        }
        calls_keep_values(h, first);
        let before = h.calling(first).cells;
        let after = h.calling(acts).cells;
        assert(!(acts[acts.len() - 1].sym is AggregateAlloc));
        assert forall|at: int|
            #![trigger after.contains_key(at)]
            #![trigger after[at]]
            h.cells.contains_key(at) && h.cells[at] is Value implies after.contains_key(at)
            && after[at] == h.cells[at] by {
            assert(before.contains_key(at) && before[at] == h.cells[at]);
        }
    }
}

/// Giving up a value asks for no box.
pub proof fn giving_up_asks_for_nothing(ty: ResolvedTy, cells: Cells, handle: int)
    ensures
        ask_for_nothing(ty.gives_up(cells, handle)),
    decreases ty, 0nat,
{
    match ty {
        ResolvedTy::Struct { name, fields } => {
            slots_ask_for_nothing(cells, handle, 8, fields@, 0);
        },
        ResolvedTy::Enum { name, variants } => {
            let tag = releases::word(cells, handle + 8);
            if 0 <= tag < variants@.len() {
                slots_ask_for_nothing(cells, handle, 16, variants@[tag].1@, 0);
            }
        },
        _ => {},
    }
}

proof fn slots_ask_for_nothing(
    cells: Cells,
    handle: int,
    base: i32,
    fields: Seq<(String, ResolvedTy)>,
    i: nat,
)
    ensures
        ask_for_nothing(releases::slots_given_up(cells, handle, base, fields, i)),
    decreases fields, fields.len() - i,
{
    if i < fields.len() {
        let at = releases::slot_at(handle, base, i);
        giving_up_asks_for_nothing(fields[i as int].1, cells, releases::word(cells, at));
        slots_ask_for_nothing(cells, handle, base, fields, i + 1);
        let x = fields[i as int].1.slot_gives_up(cells, at);
        let y = releases::slots_given_up(cells, handle, base, fields, i + 1);
        assert forall|k: int| 0 <= k < (x + y).len() implies !((#[trigger] (x + y)[k]).sym
            is AggregateAlloc) by {
            if k < x.len() {
                assert((x + y)[k] == x[k]);
            } else {
                assert((x + y)[k] == y[k - x.len()]);
            }
        }
    }
}

/// What an assignment writes to a cell is read back from it, and all other
/// values in memory stay.
pub proof fn writes_are_read_back(target: TypedAssignTarget, expr: TypedExpr, names: World)
    requires
        flow::written(target, expr, names) is Some,
        expr.ty.is_whole(),
    ensures
        ({
            let after = flow::written(target, expr, names)->0;
            let at = (flow::place(target, names)->0).0;
            &&& after.read(expr.ty.whole(), at) == meaning::meaning(expr, names)
            &&& forall|ty: ClTy, other: int|
                other != at && machine::holds_value(names.heap.cells, ty, other)
                    ==> #[trigger] after.read(ty, other) == names.read(ty, other)
        }),
{
    let (at, ty) = flow::place(target, names)->0;
    assert(!(expr.ty.whole() is F32));
    giving_up_asks_for_nothing(
        ty,
        names.heap.cells,
        releases::word(names.heap.cells, at),
    );
    let acts = ty.slot_gives_up(names.heap.cells, at);
    calls_keep_values(names.heap, acts);
    let between = names.heap.calling(acts).cells;
    let after = flow::written(target, expr, names)->0;
    assert forall|t: ClTy, other: int|
        other != at && machine::holds_value(names.heap.cells, t, other) implies #[trigger] after.read(
        t,
        other,
    ) == names.read(t, other) by {
        assert(between.contains_key(other) && between[other] == names.heap.cells[other]);
    }
}

/// What has been done when the first `i` members of a box have been written.
pub open spec fn half_filled(
    names: World,
    ms: Seq<TypedExpr>,
    i: nat,
    h: int,
    base: i32,
) -> Option<World>
    decreases i,
{
    if i == 0 {
        Some(names)
    } else {
        match half_filled(names, ms, (i - 1) as nat, h, base) {
            Some(w) => match meaning::meaning(ms[i - 1], w) {
                Some(x) => Some(
                    w.writing(
                        h + state::slot_offset(base, (i - 1) as nat),
                        ms[i - 1].ty.whole(),
                        x,
                    ),
                ),
                None => None,
            },
            None => None,
        }
    }
}

/// The members of a box that is built are read back from their slots, each with
/// the value that it had when it was written.
pub proof fn members_are_read_back(e: TypedExpr, names: World, i: nat)
    requires
        flow::builds(e),
        flow::built(e, names) is Some,
        i < flow::members(e).len(),
        flow::head(e) + 8 * flow::members(e).len() <= i32::MAX,
        forall|j: int| 0 <= j < flow::members(e).len() ==> (#[trigger] flow::members(
            e,
        )[j]).ty.is_whole(),
    ensures
        ({
            let ms = flow::members(e);
            let (start, h) = flow::provided(e, names);
            let after = (flow::built(e, names)->0).0;
            let then = half_filled(start, ms, i, h, flow::head(e));
            &&& then is Some
            &&& meaning::meaning(ms[i as int], then->0) is Some
            &&& after.read(
                ms[i as int].ty.whole(),
                releases::slot_at(h, flow::head(e), i),
            ) == meaning::meaning(ms[i as int], then->0)
        }),
{
    let ms = flow::members(e);
    let (start, h) = flow::provided(e, names);
    let base = flow::head(e);
    filled_from(start, ms, 0, h, base, i);
    let then = half_filled(start, ms, i, h, base)->0;
    let x = meaning::meaning(ms[i as int], then)->0;
    let next = then.writing(h + state::slot_offset(base, i), ms[i as int].ty.whole(), x);
    slot_stays(next, ms, i + 1, h, base, i);
    assert(!(ms[i as int].ty.whole() is F32));
}

/// A match on an enum that was just built takes the arm of its variant, and
/// binds the names there to the members, each with the value that it had when it
/// was written.
pub proof fn matches_bind_what_was_built(
    e: TypedExpr,
    names: World,
    arms: Seq<TypedMatchArm>,
    k: nat,
)
    requires
        e.kind is EnumInit,
        flow::built(e, names) is Some,
        flow::head(e) + 8 * flow::members(e).len() <= i32::MAX,
        forall|j: int| 0 <= j < flow::members(e).len() ==> (#[trigger] flow::members(
            e,
        )[j]).ty.is_whole(),
        k < arms.len(),
        machine::wrap(ClTy::I32, arms[k as int].variant_index as int) == (flow::front(e)->0).1,
        forall|j: int|
            0 <= j < k ==> machine::wrap(ClTy::I32, (#[trigger] arms[j]).variant_index as int) != (
            flow::front(e)->0).1,
        arms[k as int].bindings@.len() == flow::members(e).len(),
        forall|j: int|
            0 <= j < flow::members(e).len() ==> (#[trigger] arms[k as int].bindings@[j]).1
                == flow::members(e)[j].ty,
        forall|i: int, j: int|
            0 <= i < j < flow::members(e).len() ==> (#[trigger] arms[k as int].bindings@[i]).0@ != (
            #[trigger] arms[k as int].bindings@[j]).0@,
    ensures
        ({
            let ms = flow::members(e);
            let bs = arms[k as int].bindings@;
            let (start, h) = flow::provided(e, names);
            let after = (flow::built(e, names)->0).0;
            let tag = after.read(ClTy::I32, h + 8);
            let bound = flow::payload(bs, h, after, bs.len());
            &&& tag is Some
            &&& flow::arm_of(arms, tag->0, 0) == k
            &&& bound is Some
            &&& forall|i: int|
                0 <= i < ms.len() ==> bound->0.contains_key((#[trigger] bs[i]).0@) && Some(
                    bound->0[bs[i].0@],
                ) == meaning::meaning(
                    ms[i],
                    half_filled(start, ms, i as nat, h, flow::head(e))->0,
                )
        }),
{
    let ms = flow::members(e);
    let bs = arms[k as int].bindings@;
    let (start, h) = flow::provided(e, names);
    let after = (flow::built(e, names)->0).0;
    tag_stays(start, ms, 0, h);
    first_arm(arms, (flow::front(e)->0).1, 0, k);
    members_bound(e, names, bs, bs.len());
}

/// The members of an enum that was built are bound to names of their own.
proof fn members_bound(e: TypedExpr, names: World, bs: Seq<(String, ResolvedTy)>, n: nat)
    requires
        e.kind is EnumInit,
        flow::built(e, names) is Some,
        flow::head(e) + 8 * flow::members(e).len() <= i32::MAX,
        forall|j: int| 0 <= j < flow::members(e).len() ==> (#[trigger] flow::members(
            e,
        )[j]).ty.is_whole(),
        n <= bs.len() == flow::members(e).len(),
        forall|j: int|
            0 <= j < flow::members(e).len() ==> (#[trigger] bs[j]).1 == flow::members(e)[j].ty,
        forall|i: int, j: int|
            0 <= i < j < flow::members(e).len() ==> (#[trigger] bs[i]).0@ != (#[trigger] bs[j]).0@,
    ensures
        ({
            let ms = flow::members(e);
            let (start, h) = flow::provided(e, names);
            let after = (flow::built(e, names)->0).0;
            let bound = flow::payload(bs, h, after, n);
            &&& bound is Some
            &&& bound->0.heap == after.heap
            &&& forall|i: int|
                0 <= i < n ==> bound->0.contains_key((#[trigger] bs[i]).0@) && Some(
                    bound->0[bs[i].0@],
                ) == meaning::meaning(
                    ms[i],
                    half_filled(start, ms, i as nat, h, flow::head(e))->0,
                )
        }),
    decreases n,
{
    if n > 0 {
        let i = (n - 1) as nat;
        let ms = flow::members(e);
        let (start, h) = flow::provided(e, names);
        let after = (flow::built(e, names)->0).0;
        members_bound(e, names, bs, i);
        assert(bs[i as int].1 == ms[i as int].ty);
        members_are_read_back(e, names, i);
        assert(flow::payload(bs, h, after, i)->0.read(
            bs[i as int].1.whole(),
            h + state::slot_offset(16, i),
        ) == after.read(ms[i as int].ty.whole(), releases::slot_at(h, 16, i)));
    }
}

/// The tag of an enum stays while its members are written.
proof fn tag_stays(names: World, ms: Seq<TypedExpr>, j: nat, h: int)
    requires
        16 + 8 * ms.len() <= i32::MAX,
        flow::filled(names, ms, j, h, 16) is Some,
        names.heap.cells.contains_key(h + 8),
    ensures
        ({
            let after = flow::filled(names, ms, j, h, 16)->0;
            &&& after.heap.cells.contains_key(h + 8)
            &&& after.heap.cells[h + 8] == names.heap.cells[h + 8]
        }),
    decreases ms.len() - j,
{
    if j < ms.len() {
        let x = meaning::meaning(ms[j as int], names)->0;
        let next = names.writing(h + state::slot_offset(16, j), ms[j as int].ty.whole(), x);
        assert(state::slot_offset(16, j) == 16 + 8 * j);
        tag_stays(next, ms, j + 1, h);
    }
}

/// The first arm for a tag is taken.
proof fn first_arm(arms: Seq<TypedMatchArm>, tag: int, i: nat, k: nat)
    requires
        i <= k < arms.len(),
        machine::wrap(ClTy::I32, arms[k as int].variant_index as int) == tag,
        forall|j: int|
            0 <= j < k ==> machine::wrap(ClTy::I32, (#[trigger] arms[j]).variant_index as int)
                != tag,
    ensures
        flow::arm_of(arms, tag, i) == k,
    decreases k - i,
{
    if i < k {
        first_arm(arms, tag, i + 1, k);
    }
}

/// Filling the rest of a box begins where its first members end.
proof fn filled_from(start: World, ms: Seq<TypedExpr>, j: nat, h: int, base: i32, i: nat)
    requires
        j <= i < ms.len(),
        half_filled(start, ms, j, h, base) is Some,
        flow::filled(half_filled(start, ms, j, h, base)->0, ms, j, h, base) is Some,
        flow::filled(start, ms, 0, h, base) == flow::filled(
            half_filled(start, ms, j, h, base)->0,
            ms,
            j,
            h,
            base,
        ),
    ensures
        half_filled(start, ms, i, h, base) is Some,
        ({
            let then = half_filled(start, ms, i, h, base)->0;
            let x = meaning::meaning(ms[i as int], then);
            &&& x is Some
            &&& flow::filled(start, ms, 0, h, base) == flow::filled(
                then.writing(h + state::slot_offset(base, i), ms[i as int].ty.whole(), x->0),
                ms,
                i + 1,
                h,
                base,
            )
        }),
    decreases i - j,
{
    if j < i {
        filled_from(start, ms, j + 1, h, base, i);
    }
}

/// A slot keeps its content while later slots are written.
proof fn slot_stays(names: World, ms: Seq<TypedExpr>, j: nat, h: int, base: i32, i: nat)
    requires
        i < j,
        i < ms.len(),
        0 <= base,
        base + 8 * ms.len() <= i32::MAX,
        flow::filled(names, ms, j, h, base) is Some,
    ensures
        ({
            let at = releases::slot_at(h, base, i);
            let after = flow::filled(names, ms, j, h, base)->0;
            &&& names.heap.cells.contains_key(at) ==> after.heap.cells.contains_key(at)
            &&& after.heap.cells[at] == names.heap.cells[at] || !names.heap.cells.contains_key(at)
        }),
    decreases ms.len() - j,
{
    if j < ms.len() {
        let x = meaning::meaning(ms[j as int], names)->0;
        let next = names.writing(h + state::slot_offset(base, j), ms[j as int].ty.whole(), x);
        assert(state::slot_offset(base, i) == base + 8 * i);
        assert(state::slot_offset(base, j) == base + 8 * j);
        slot_stays(next, ms, j + 1, h, base, i);
    }
}

/// A struct or a tuple whose listed slots hold tensors releases each of them
/// once, in the order of the list, before its box is handed back.
pub proof fn boxes_release_their_tensors_once(
    cells: Cells,
    handle: int,
    slots: Seq<(usize, ResolvedTy)>,
)
    requires
        forall|k: int| 0 <= k < slots.len() ==> (#[trigger] slots[k]).1 is Tensor,
    ensures
        ({
            let acts = releases::box_given_up(cells, handle, slots);
            &&& acts.len() == slots.len() + 1
            &&& acts.last() == releases::act(RtSym::AggregateRelease, handle)
            &&& forall|k: int|
                0 <= k < slots.len() ==> #[trigger] acts[k] == releases::act(
                    RtSym::TensorRelease,
                    releases::word(cells, releases::slot_at(handle, 8, slots[k].0 as nat)),
                )
        }),
{
    listed_once(cells, handle, slots, 0);
}

proof fn listed_once(cells: Cells, handle: int, slots: Seq<(usize, ResolvedTy)>, i: nat)
    requires
        i <= slots.len(),
        forall|k: int| 0 <= k < slots.len() ==> (#[trigger] slots[k]).1 is Tensor,
    ensures
        ({
            let acts = releases::listed_given_up(cells, handle, 8, slots, i);
            &&& acts.len() == slots.len() - i
            &&& forall|k: int|
                0 <= k < slots.len() - i ==> #[trigger] acts[k] == releases::act(
                    RtSym::TensorRelease,
                    releases::word(cells, releases::slot_at(handle, 8, slots[k + i].0 as nat)),
                )
        }),
    decreases slots.len() - i,
{
    if i < slots.len() {
        listed_once(cells, handle, slots, i + 1);
        let acts = releases::listed_given_up(cells, handle, 8, slots, i);
        let rest = releases::listed_given_up(cells, handle, 8, slots, i + 1);
        let first = slots[i as int].1.slot_gives_up(
            cells,
            releases::slot_at(handle, 8, slots[i as int].0 as nat),
        );
        assert(acts == first + rest);
        assert forall|k: int| 0 <= k < slots.len() - i implies #[trigger] acts[k]
            == releases::act(
            RtSym::TensorRelease,
            releases::word(cells, releases::slot_at(handle, 8, slots[k + i].0 as nat)),
        ) by {
            if k > 0 {
                assert(acts[k] == rest[k - 1]);
            }
        }
    }
}

/// The cell in front of the slots keeps its content while they are written.
proof fn front_stays(names: World, ms: Seq<TypedExpr>, j: nat, h: int, base: i32, at: int)
    requires
        h <= at < h + base,
        0 <= base,
        base + 8 * ms.len() <= i32::MAX,
        flow::filled(names, ms, j, h, base) is Some,
        names.heap.cells.contains_key(at),
    ensures
        ({
            let after = flow::filled(names, ms, j, h, base)->0;
            after.heap.cells.contains_key(at) && after.heap.cells[at] == names.heap.cells[at]
        }),
    decreases ms.len() - j,
{
    if j < ms.len() {
        let x = meaning::meaning(ms[j as int], names)->0;
        let next = names.writing(h + state::slot_offset(base, j), ms[j as int].ty.whole(), x);
        assert(state::slot_offset(base, j) == base + 8 * j);
        front_stays(next, ms, j + 1, h, base, at);
    }
}

/// A list of tensors that has just been built has one owner and holds its
/// members; when that owner gives it up, each of them is released once, in
/// order, and then the list is handed back.
pub proof fn built_lists_release_what_they_hold(e: TypedExpr, names: World, dtype: ScalarTy)
    requires
        e.kind is ArrayLiteral,
        e.ty is List,
        flow::built(e, names) is Some,
        16 + 8 * flow::members(e).len() <= i32::MAX,
        forall|j: int| 0 <= j < flow::members(e).len() ==> (#[trigger] flow::members(
            e,
        )[j]).ty is Tensor,
    ensures
        ({
            let ms = flow::members(e);
            let (start, h) = flow::provided(e, names);
            let after = (flow::built(e, names)->0).0;
            let acts = releases::list_given_up(
                after.heap.cells,
                h,
                ResolvedTy::Tensor { dtype },
            );
            &&& acts.len() == ms.len() + 1
            &&& acts.last() == releases::act(RtSym::ListRelease, h)
            &&& forall|i: int|
                0 <= i < ms.len() ==> (#[trigger] acts[i]).sym is TensorRelease && acts[i].args
                    =~= seq![
                    meaning::meaning(
                        ms[i],
                        half_filled(start, ms, i as nat, h, 16)->0,
                    )->0,
                ]
        }),
{
    let ms = flow::members(e);
    let n = ms.len();
    let (start, h) = flow::provided(e, names);
    let after = (flow::built(e, names)->0).0;
    let cells = after.heap.cells;
    let ask = releases::act(RtSym::AggregateAlloc, flow::size(e) as int);
    machine::calling_one(names.heap, ask);
    vstd::arithmetic::div_mod::lemma_small_mod(1, 0x1_0000_0000_0000_0000);
    vstd::arithmetic::div_mod::lemma_small_mod(n, 0x1_0000_0000_0000_0000);
    assert(start.heap.cells[h] == Cell::Count(RefCount { count: 1 }));
    assert(start.heap.cells[h + 8] == Cell::Value(ClTy::I64, n as int));
    front_stays(start, ms, 0, h, 16, h);
    front_stays(start, ms, 0, h, 16, h + 8);
    let acts = releases::list_given_up(cells, h, ResolvedTy::Tensor { dtype });
    assert forall|i: int| 0 <= i < n implies (#[trigger] acts[i]).sym is TensorRelease
        && acts[i].args =~= seq![
        meaning::meaning(ms[i], half_filled(start, ms, i as nat, h, 16)->0)->0,
    ] by {
        members_are_read_back(e, names, i as nat);
        assert(state::slot_offset(16, i as nat) == 16 + 8 * i);
        assert(releases::slot_at(h, 16, i as nat) == h + 16 + 8 * i);
    }
}

} // verus!
