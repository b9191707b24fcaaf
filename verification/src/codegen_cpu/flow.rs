//! What statements on integers, truth values and handles of boxes do.

use crate::codegen_cpu::inst::ClTy;
use crate::codegen_cpu::machine;
use crate::codegen_cpu::machine::{Act, Cells, Done};
use crate::codegen_cpu::meaning;
use crate::codegen_cpu::meaning::{Sort, World};
use crate::codegen_cpu::releases;
use crate::codegen_cpu::state;
use crate::codegen_cpu::symbols::RtSym;
use crate::typed::{
    ResolvedTy, TypedAssignTarget, TypedExpr, TypedExprKind, TypedMatchArm, TypedStmt,
};
use vstd::prelude::*;

verus! {

/// How a statement ends, and the values of the names then. Names of inner
/// blocks stay in the map; nothing reads them.
pub enum Flow {
    Next(World),
    Break(World),
    Continue(World),
    Return(Done),
}

/// What an expression stands for.
pub open spec fn sort_of(e: TypedExpr) -> Sort {
    match e.ty {
        ResolvedTy::Bool => Sort::Truth,
        ty => Sort::Integer(ty.whole()),
    }
}

/// Expressions on integers and truth values.
pub open spec fn core_expr(e: TypedExpr, sorts: Map<Seq<char>, Sort>) -> bool {
    meaning::integer_expr(e, sorts) || meaning::truth_expr(e, sorts)
}

/// What an expression means, with one for true and zero for false.
pub open spec fn value(e: TypedExpr, names: World) -> Option<int> {
    if sort_of(e) is Integer {
        meaning::meaning(e, names)
    } else {
        match meaning::truth(e, names) {
            Some(true) => Some(1),
            Some(false) => Some(0),
            None => None,
        }
    }
}

/// Whether a name stands for a word: a 64-bit integer or a handle.
pub open spec fn is_word(sorts: Map<Seq<char>, Sort>, n: Seq<char>) -> bool {
    sorts.contains_key(n) && sorts[n] == Sort::Integer(ClTy::I64)
}

/// The name whose value a statement retains, releases or gives up.
pub open spec fn handle_name(s: TypedStmt) -> Option<Seq<char>> {
    match s {
        TypedStmt::Drop { name } => Some(name@),
        TypedStmt::Retain { name } => Some(name@),
        TypedStmt::Release { name } => Some(name@),
        TypedStmt::RetainAgg { name } => Some(name@),
        TypedStmt::ReleaseAgg { name } => Some(name@),
        TypedStmt::DropBuffer { name } => Some(name@),
        TypedStmt::DropStruct { name, .. } => Some(name@),
        TypedStmt::DropTuple { name, .. } => Some(name@),
        TypedStmt::DropEnum { name, .. } => Some(name@),
        TypedStmt::DropArray { name, .. } => Some(name@),
        TypedStmt::DropList { name, .. } => Some(name@),
        _ => None,
    }
}

/// The runtime function that such a statement consists of, where it is one.
pub open spec fn handle_sym(s: TypedStmt) -> Option<RtSym> {
    match s {
        TypedStmt::Drop { .. } => Some(RtSym::TensorFree),
        TypedStmt::Retain { .. } => Some(RtSym::TensorRetain),
        TypedStmt::Release { .. } => Some(RtSym::TensorRelease),
        TypedStmt::RetainAgg { .. } => Some(RtSym::AggregateRetain),
        TypedStmt::ReleaseAgg { .. } => Some(RtSym::AggregateRelease),
        TypedStmt::DropBuffer { .. } => Some(RtSym::BufferFree),
        _ => None,
    }
}

/// Whether memory holds what such a statement reads.
pub open spec fn handle_held(s: TypedStmt, cells: Cells, h: int) -> bool {
    match s {
        TypedStmt::DropStruct { droppable_fields, .. } => releases::listed_held(
            cells,
            h,
            8,
            droppable_fields@,
            0,
        ),
        TypedStmt::DropTuple { droppable_fields, .. } => releases::listed_held(
            cells,
            h,
            8,
            droppable_fields@,
            0,
        ),
        TypedStmt::DropEnum { variants, .. } => releases::enum_listed_held(cells, h, variants@),
        TypedStmt::DropArray { elem_ty, len, .. } => releases::array_held(cells, h, elem_ty, len),
        TypedStmt::DropList { elem_ty, .. } => releases::list_held(cells, h, elem_ty),
        _ => true,
    }
}

/// The calls of the runtime that such a statement makes.
pub open spec fn handle_acts(s: TypedStmt, cells: Cells, h: int) -> Seq<Act> {
    match s {
        TypedStmt::DropStruct { droppable_fields, .. } => releases::box_given_up(
            cells,
            h,
            droppable_fields@,
        ),
        TypedStmt::DropTuple { droppable_fields, .. } => releases::box_given_up(
            cells,
            h,
            droppable_fields@,
        ),
        TypedStmt::DropEnum { variants, .. } => releases::enum_listed_given_up(
            cells,
            h,
            variants@,
        ),
        TypedStmt::DropArray { elem_ty, len, .. } => releases::array_given_up(
            cells,
            h,
            elem_ty,
            len,
        ),
        TypedStmt::DropList { elem_ty, .. } => releases::list_given_up(cells, h, elem_ty),
        _ => seq![releases::act(handle_sym(s)->0, h)],
    }
}

/// The cell that an assignment writes, and the type of what it holds.
pub open spec fn place(target: TypedAssignTarget, names: World) -> Option<(int, ResolvedTy)> {
    match target {
        TypedAssignTarget::Index { base, index, elem_ty } => match meaning::meaning(
            *index,
            names,
        ) {
            Some(i) => Some((meaning::element_at(names[base@], 0, i), elem_ty)),
            None => None,
        },
        TypedAssignTarget::ListIndex { base, index, elem_ty } => match meaning::meaning(
            *index,
            names,
        ) {
            Some(i) => Some((meaning::element_at(names[base@], 16, i), elem_ty)),
            None => None,
        },
        TypedAssignTarget::Field { base, slot_idx, field_ty } => Some(
            (names[base@] + state::slot_offset(8, slot_idx as nat), field_ty),
        ),
        _ => None,
    }
}

/// A write to a cell: what it held is given up first. There is no answer where
/// that cannot be read.
pub open spec fn written(
    target: TypedAssignTarget,
    expr: TypedExpr,
    names: World,
) -> Option<World> {
    match (place(target, names), meaning::meaning(expr, names)) {
        (Some((at, ty)), Some(x)) => if ty.slot_held(names.heap.cells, at) {
            Some(
                names.calling(ty.slot_gives_up(names.heap.cells, at)).writing(
                    at,
                    expr.ty.whole(),
                    x,
                ),
            )
        } else {
            None
        },
        _ => None,
    }
}

/// What is done before a value is returned: a list that lies in a field gets a
/// reference of its own.
pub open spec fn returning(expr: TypedExpr, x: int, names: World) -> World {
    if expr.ty is List && expr.kind is FieldAccess {
        names.calling(seq![releases::act(RtSym::AggregateRetain, x)])
    } else {
        names
    }
}

/// Members of a box that is built.
pub open spec fn members(e: TypedExpr) -> Seq<TypedExpr> {
    match e.kind {
        TypedExprKind::StructInit { fields, .. } => fields@,
        TypedExprKind::TupleInit { elements } => elements@,
        TypedExprKind::EnumInit { payload, .. } => payload@,
        TypedExprKind::ArrayLiteral { elements } => elements@,
        _ => Seq::empty(),
    }
}

/// Whether an expression builds a box.
pub open spec fn builds(e: TypedExpr) -> bool {
    e.kind is StructInit || e.kind is TupleInit || e.kind is EnumInit || e.kind is ArrayLiteral
}

/// Expressions that build a struct, a tuple, an enum, an array or a list of
/// integers and handles.
pub open spec fn built_expr(e: TypedExpr, sorts: Map<Seq<char>, Sort>) -> bool {
    &&& e.ty.is_handle()
    &&& builds(e)
    &&& forall|i: int|
        0 <= i < members(e).len() ==> meaning::integer_expr(#[trigger] members(e)[i], sorts)
}

/// Whether an expression builds an array, which is a plain row of elements.
pub open spec fn is_row(e: TypedExpr) -> bool {
    e.kind is ArrayLiteral && !(e.ty is List)
}

/// Bytes before the members of a box.
pub open spec fn head(e: TypedExpr) -> i32 {
    if is_row(e) {
        0
    } else if e.kind is StructInit || e.kind is TupleInit {
        8
    } else {
        16
    }
}

/// Size of a box in bytes.
pub open spec fn size(e: TypedExpr) -> i64 {
    state::box_size(
        head(e) as i64,
        match e.kind {
            TypedExprKind::EnumInit { max_payload_slots, .. } => max_payload_slots as nat,
            _ => members(e).len(),
        },
    )
}

/// The runtime function that provides a box.
pub open spec fn allocator(e: TypedExpr) -> RtSym {
    if is_row(e) {
        RtSym::Malloc
    } else {
        RtSym::AggregateAlloc
    }
}

/// What stands in front of the members: the tag of an enum, the length of a
/// list.
pub open spec fn front(e: TypedExpr) -> Option<(ClTy, int)> {
    match e.kind {
        TypedExprKind::EnumInit { variant_index, .. } => Some(
            (ClTy::I32, machine::wrap(ClTy::I32, variant_index as int)),
        ),
        TypedExprKind::ArrayLiteral { elements } => if is_row(e) {
            None
        } else {
            Some((ClTy::I64, machine::wrap(ClTy::I64, (elements@.len() as usize) as i64 as int)))
        },
        _ => None,
    }
}

/// Writes the members from position `i` on into their slots, one after the
/// other.
pub open spec fn filled(
    names: World,
    ms: Seq<TypedExpr>,
    i: nat,
    h: int,
    base: i32,
) -> Option<World>
    decreases ms.len() - i,
{
    if i >= ms.len() {
        Some(names)
    } else {
        match meaning::meaning(ms[i as int], names) {
            Some(x) => filled(
                names.writing(h + state::slot_offset(base, i), ms[i as int].ty.whole(), x),
                ms,
                i + 1,
                h,
                base,
            ),
            None => None,
        }
    }
}

/// The runtime provides a box, and the first bytes of it are written.
pub open spec fn provided(e: TypedExpr, names: World) -> (World, int) {
    let asked = names.calling(seq![releases::act(allocator(e), size(e) as int)]);
    let h = (names.heap.answers)(asked.heap.calls);
    (
        match front(e) {
            Some((ty, x)) => asked.writing(h + 8, ty, x),
            None => asked,
        },
        h,
    )
}

/// A box is built: what has been done then, and the handle of the box.
pub open spec fn built(e: TypedExpr, names: World) -> Option<(World, int)> {
    let (asked, h) = provided(e, names);
    match filled(asked, members(e), 0, h, head(e)) {
        Some(after) => Some((after, h)),
        None => None,
    }
}

/// What the names stand for when the first `n` members of a variant are bound.
pub open spec fn bound_sorts(
    bs: Seq<(String, ResolvedTy)>,
    sorts: Map<Seq<char>, Sort>,
    n: nat,
) -> Map<Seq<char>, Sort>
    decreases n,
{
    if n == 0 {
        sorts
    } else {
        bound_sorts(bs, sorts, (n - 1) as nat).insert(
            bs[n - 1].0@,
            Sort::Integer(bs[n - 1].1.whole()),
        )
    }
}

/// Members that are integers or handles, bound to new names.
pub open spec fn core_bindings(
    bs: Seq<(String, ResolvedTy)>,
    sorts: Map<Seq<char>, Sort>,
) -> bool {
    forall|j: int|
        0 <= j < bs.len() ==> (#[trigger] bs[j]).1.is_whole() && !bound_sorts(
            bs,
            sorts,
            j as nat,
        ).contains_key(bs[j].0@)
}

/// The first `n` members of a variant are bound.
pub open spec fn payload(
    bs: Seq<(String, ResolvedTy)>,
    h: int,
    names: World,
    n: nat,
) -> Option<World>
    decreases n,
{
    if n == 0 {
        Some(names)
    } else {
        match payload(bs, h, names, (n - 1) as nat) {
            Some(w) => match w.read(
                bs[n - 1].1.whole(),
                h + state::slot_offset(16, (n - 1) as nat),
            ) {
                Some(x) => Some(w.insert(bs[n - 1].0@, x)),
                None => None,
            },
            None => None,
        }
    }
}

/// The first arm, from position `i` on, for a tag.
pub open spec fn arm_of(arms: Seq<TypedMatchArm>, tag: int, i: nat) -> nat
    decreases arms.len() - i,
{
    if i >= arms.len() || machine::wrap(ClTy::I32, arms[i as int].variant_index as int) == tag {
        i
    } else {
        arm_of(arms, tag, i + 1)
    }
}

/// Statements on integers, truth values and handles that give no name a second
/// meaning.
/// `looped` tells whether they stand in a loop.
pub open spec fn core_stmt(s: TypedStmt, sorts: Map<Seq<char>, Sort>, looped: bool) -> bool
    decreases s, 0nat,
{
    match s {
        TypedStmt::Let { name, expr } => !sorts.contains_key(name@) && (core_expr(expr, sorts)
            || built_expr(expr, sorts)),
        TypedStmt::Assign { target, expr } => match target {
            TypedAssignTarget::Ident(name) => {
                &&& sorts.contains_key(name@)
                &&& core_expr(expr, sorts)
                &&& sorts[name@] == sort_of(expr)
            },
            TypedAssignTarget::Index { base, index, .. } => {
                &&& is_word(sorts, base@)
                &&& meaning::integer_expr(*index, sorts)
                &&& index.ty.whole() == ClTy::I64
                &&& meaning::integer_expr(expr, sorts)
            },
            TypedAssignTarget::ListIndex { base, index, .. } => {
                &&& is_word(sorts, base@)
                &&& meaning::integer_expr(*index, sorts)
                &&& index.ty.whole() == ClTy::I64
                &&& meaning::integer_expr(expr, sorts)
            },
            TypedAssignTarget::Field { base, .. } => {
                &&& is_word(sorts, base@)
                &&& meaning::integer_expr(expr, sorts)
            },
            _ => false,
        },
        TypedStmt::Return { expr } => meaning::integer_expr(expr, sorts),
        TypedStmt::If { condition, then_body, else_body } => {
            &&& meaning::truth_expr(condition, sorts)
            &&& core_body(then_body@, 0, sorts, looped)
            &&& match else_body {
                Some(b) => core_body(b@, 0, sorts, looped),
                None => true,
            }
        },
        TypedStmt::While { condition, body } => {
            &&& meaning::truth_expr(condition, sorts)
            &&& core_body(body@, 0, sorts, true)
        },
        TypedStmt::For { var, start, end, body } => {
            &&& !sorts.contains_key(var@)
            &&& meaning::integer_expr(start, sorts)
            &&& sort_of(start) == Sort::Integer(ClTy::I64)
            &&& meaning::integer_expr(end, sorts)
            &&& sort_of(end) == Sort::Integer(ClTy::I64)
            &&& core_body(body@, 0, sorts.insert(var@, Sort::Integer(ClTy::I64)), true)
        },
        TypedStmt::Break | TypedStmt::Continue => looped,
        TypedStmt::Match { scrutinee, arms } => {
            &&& meaning::integer_expr(scrutinee, sorts)
            &&& core_arms(arms@, 0, sorts, looped)
        },
        _ => match handle_name(s) {
            Some(n) => is_word(sorts, n),
            None => false,
        },
    }
}

/// Arms of a match from position `i` on.
pub open spec fn core_arms(
    arms: Seq<TypedMatchArm>,
    i: nat,
    sorts: Map<Seq<char>, Sort>,
    looped: bool,
) -> bool
    decreases arms, arms.len() - i,
{
    i >= arms.len() || {
        let bs = arms[i as int].bindings@;
        &&& core_bindings(bs, sorts)
        &&& core_body(arms[i as int].body@, 0, bound_sorts(bs, sorts, bs.len()), looped)
        &&& core_arms(arms, i + 1, sorts, looped)
    }
}

/// What the names stand for behind a statement.
pub open spec fn after(s: TypedStmt, sorts: Map<Seq<char>, Sort>) -> Map<Seq<char>, Sort> {
    match s {
        TypedStmt::Let { name, expr } => sorts.insert(name@, sort_of(expr)),
        _ => sorts,
    }
}

/// Such statements from position `i` on.
pub open spec fn core_body(
    b: Seq<TypedStmt>,
    i: nat,
    sorts: Map<Seq<char>, Sort>,
    looped: bool,
) -> bool
    decreases b, b.len() - i,
{
    i >= b.len() || {
        &&& core_stmt(b[i as int], sorts, looped)
        &&& core_body(b, i + 1, after(b[i as int], sorts), looped)
    }
}

/// What a name is bound to, and what has been done then.
pub open spec fn let_value(e: TypedExpr, names: World) -> Option<(World, int)> {
    if builds(e) {
        built(e, names)
    } else {
        match value(e, names) {
            Some(x) => Some((names, x)),
            None => None,
        }
    }
}

/// How a statement ends. There is no answer where a quotient has none, where
/// memory does not hold what is read, or where more than `fuel` rounds of a
/// loop are needed.
pub open spec fn stmt_flow(s: TypedStmt, names: World, fuel: nat) -> Option<Flow>
    decreases fuel, s, 0nat,
{
    match s {
        TypedStmt::Let { name, expr } => match let_value(expr, names) {
            Some((after, x)) => Some(Flow::Next(after.insert(name@, x))),
            None => None,
        },
        TypedStmt::Assign { target, expr } => match target {
            TypedAssignTarget::Ident(name) => match value(expr, names) {
                Some(x) => Some(Flow::Next(names.insert(name@, x))),
                None => None,
            },
            _ => match written(target, expr, names) {
                Some(after) => Some(Flow::Next(after)),
                None => None,
            },
        },
        TypedStmt::Return { expr } => match value(expr, names) {
            Some(x) => Some(Flow::Return(returning(expr, x, names).leaves(Some(x)))),
            None => None,
        },
        TypedStmt::If { condition, then_body, else_body } => match (
            meaning::truth(condition, names),
            else_body,
        ) {
            (Some(true), _) => body_flow(then_body@, 0, names, fuel),
            (Some(false), Some(b)) => body_flow(b@, 0, names, fuel),
            (Some(false), None) => Some(Flow::Next(names)),
            (None, _) => None,
        },
        TypedStmt::While { condition, body } => while_flow(condition, body@, names, fuel),
        TypedStmt::For { var, start, end, body } => match meaning::meaning(start, names) {
            Some(from) => for_flow(var@, end, body@, names.insert(var@, from), fuel),
            None => None,
        },
        TypedStmt::Break => Some(Flow::Break(names)),
        TypedStmt::Continue => Some(Flow::Continue(names)),
        TypedStmt::Match { scrutinee, arms } => match meaning::meaning(scrutinee, names) {
            Some(h) => match names.read(ClTy::I32, h + 8) {
                Some(tag) => arm_flow(arms@, arm_of(arms@, tag, 0), h, names, fuel),
                None => None,
            },
            None => None,
        },
        _ => match handle_name(s) {
            Some(n) => if handle_held(s, names.heap.cells, names[n]) {
                Some(Flow::Next(names.calling(handle_acts(s, names.heap.cells, names[n]))))
            } else {
                None
            },
            None => None,
        },
    }
}

/// How an arm of a match ends.
pub open spec fn arm_flow(
    arms: Seq<TypedMatchArm>,
    k: nat,
    h: int,
    names: World,
    fuel: nat,
) -> Option<Flow>
    decreases fuel, arms, 0nat,
{
    if k < arms.len() {
        let bs = arms[k as int].bindings@;
        match payload(bs, h, names, bs.len()) {
            Some(w) => body_flow(arms[k as int].body@, 0, w, fuel),
            None => None,
        }
    } else {
        None
    }
}

/// How the statements from position `i` on end.
pub open spec fn body_flow(
    b: Seq<TypedStmt>,
    i: nat,
    names: World,
    fuel: nat,
) -> Option<Flow>
    decreases fuel, b, b.len() - i,
{
    if i >= b.len() {
        Some(Flow::Next(names))
    } else {
        match stmt_flow(b[i as int], names, fuel) {
            Some(Flow::Next(names)) => body_flow(b, i + 1, names, fuel),
            other => other,
        }
    }
}

/// How a loop ends that goes on while a condition holds.
pub open spec fn while_flow(
    condition: TypedExpr,
    b: Seq<TypedStmt>,
    names: World,
    fuel: nat,
) -> Option<Flow>
    decreases fuel, b, b.len() + 1,
{
    match meaning::truth(condition, names) {
        None => None,
        Some(false) => Some(Flow::Next(names)),
        Some(true) => if fuel == 0 {
            None
        } else {
            match body_flow(b, 0, names, fuel) {
                Some(Flow::Next(names)) | Some(Flow::Continue(names)) => while_flow(
                    condition,
                    b,
                    names,
                    (fuel - 1) as nat,
                ),
                Some(Flow::Break(names)) => Some(Flow::Next(names)),
                other => other,
            }
        },
    }
}

/// How a loop ends that counts a name up to a limit, which is evaluated anew
/// before each round.
pub open spec fn for_flow(
    var: Seq<char>,
    end: TypedExpr,
    b: Seq<TypedStmt>,
    names: World,
    fuel: nat,
) -> Option<Flow>
    decreases fuel, b, b.len() + 1,
{
    match meaning::meaning(end, names) {
        None => None,
        Some(limit) => if names[var] >= limit {
            Some(Flow::Next(names))
        } else if fuel == 0 {
            None
        } else {
            match body_flow(b, 0, names, fuel) {
                Some(Flow::Next(names)) | Some(Flow::Continue(names)) => for_flow(
                    var,
                    end,
                    b,
                    names.insert(var, machine::wrap(ClTy::I64, names[var] + 1)),
                    (fuel - 1) as nat,
                ),
                Some(Flow::Break(names)) => Some(Flow::Next(names)),
                other => other,
            }
        },
    }
}

} // verus!
