//! What expressions on integers, truth values and handles of boxes mean, and
//! that the code generated for them computes it.

use crate::codegen_cpu::inst::{Arith, ClTy, Convert, FloatCc, Inst, IntCc, Val, Var};
use crate::codegen_cpu::machine;
use crate::codegen_cpu::machine::{Act, Done, Event, Heap, Mach, Prog, Store};
use crate::codegen_cpu::scheme_expr;
use crate::codegen_cpu::state;
use crate::codegen_cpu::state::{EnvView, Fail, St};
use crate::typed::{BinOp, Lit, ResolvedTy, ScalarTy, TypedExpr, TypedExprKind};
use vstd::prelude::*;

verus! {

/// What a name stands for: an integer of a machine type, or a truth value. The
/// handle of a box is a 64-bit integer.
pub enum Sort {
    Integer(ClTy),
    Truth,
}

/// What a program has done so far: the values of its names, memory and the
/// runtime.
pub struct World {
    pub names: Map<Seq<char>, int>,
    pub heap: Heap,
}

impl World {
    pub open spec fn contains_key(self, n: Seq<char>) -> bool {
        self.names.contains_key(n)
    }

    pub open spec fn insert(self, n: Seq<char>, x: int) -> World {
        World { names: self.names.insert(n, x), ..self }
    }

    pub open spec fn spec_index(self, n: Seq<char>) -> int {
        self.names[n]
    }

    /// What is left behind where the function returns here.
    pub open spec fn leaves(self, result: Option<int>) -> Done {
        Done { result, cells: self.heap.cells, calls: self.heap.calls }
    }

    /// Behind some calls of the runtime.
    pub open spec fn calling(self, acts: Seq<Act>) -> World {
        World { heap: self.heap.calling(acts), ..self }
    }

    /// Behind a write to a cell.
    pub open spec fn writing(self, at: int, ty: ClTy, x: int) -> World {
        World { heap: self.heap.writing(at, ty, x), ..self }
    }

    /// The value of a type that a cell holds, if it holds one.
    pub open spec fn read(self, ty: ClTy, at: int) -> Option<int> {
        if machine::holds_cell(self.heap.cells, ty, at) {
            Some(self.heap.cells[at].number())
        } else {
            None
        }
    }
}

impl Sort {
    pub open spec fn machine(self) -> ClTy {
        match self {
            Sort::Integer(ty) => ty,
            Sort::Truth => ClTy::I8,
        }
    }
}

impl ScalarTy {
    pub open spec fn is_signed(self) -> bool {
        self is I8 || self is I16 || self is I32 || self is I64
    }
}

impl ResolvedTy {
    /// Whether values of this type are handles of something on the heap.
    pub open spec fn is_handle(self) -> bool {
        !(self is Scalar || self is Bool || self is Unit)
    }

    /// Whether values of this type are integers or handles.
    pub open spec fn is_whole(self) -> bool {
        self.is_handle() || (self matches ResolvedTy::Scalar(s) && !s.is_float())
    }

    /// The integer type of a value of this type.
    pub open spec fn whole(self) -> ClTy {
        match self {
            ResolvedTy::Scalar(s) => s.machine(),
            _ => ClTy::I64,
        }
    }
}

/// Bytes before the first element of an array or a list.
pub open spec fn header(ty: ResolvedTy) -> i64 {
    if ty is Array {
        0
    } else {
        16
    }
}

/// Address of an element, behind a header of some bytes.
pub open spec fn element_at(handle: int, header: i64, i: int) -> int {
    let off = machine::wrap(ClTy::I64, i * 8);
    machine::wrap(
        ClTy::I64,
        handle + if header == 0 {
            off
        } else {
            machine::wrap(ClTy::I64, off + header)
        },
    )
}

/// The elements of an array or a list lie in a row behind its header.
pub proof fn elements_lie_in_a_row(handle: int, header: i64, i: int)
    requires
        0 <= handle,
        0 <= header,
        0 <= i,
        handle + header + 8 * i <= i64::MAX,
    ensures
        element_at(handle, header, i) == handle + header + 8 * i,
{
    let m: nat = 0x1_0000_0000_0000_0000;
    vstd::arithmetic::div_mod::lemma_small_mod((i * 8) as nat, m);
    vstd::arithmetic::div_mod::lemma_small_mod((i * 8 + header) as nat, m);
    vstd::arithmetic::div_mod::lemma_small_mod((handle + header + 8 * i) as nat, m);
}

/// Expressions on integers of one type: literals, names, sums, differences,
/// products and negations, and on signed types quotients. Integers and handles
/// may come from fields of structs, from tuples, and from elements of arrays
/// and lists.
pub open spec fn integer_expr(e: TypedExpr, sorts: Map<Seq<char>, Sort>) -> bool
    decreases e,
{
    e.ty.is_whole() && match e.kind {
        TypedExprKind::Lit(Lit::Int(_)) => e.ty is Scalar,
        TypedExprKind::Ident(n) => sorts.contains_key(n@) && sorts[n@] == Sort::Integer(
            e.ty.whole(),
        ),
        TypedExprKind::BinOp { op, lhs, rhs } => {
            &&& e.ty matches ResolvedTy::Scalar(s)
            &&& op is Add || op is Sub || op is Mul || (op is Div && s.is_signed())
            &&& lhs.ty == e.ty
            &&& rhs.ty == e.ty
            &&& integer_expr(*lhs, sorts)
            &&& integer_expr(*rhs, sorts)
        },
        TypedExprKind::Unary { op, operand } => {
            &&& e.ty is Scalar
            &&& op is Neg
            &&& operand.ty == e.ty
            &&& integer_expr(*operand, sorts)
        },
        TypedExprKind::FieldAccess { base, field } => {
            &&& base.ty matches ResolvedTy::Struct { name, fields }
            &&& scheme_expr::field_pos(fields@, field@, 0) is Some
            &&& integer_expr(*base, sorts)
        },
        TypedExprKind::TupleIndex { base, index } => integer_expr(*base, sorts),
        TypedExprKind::Index { base, indices } => {
            &&& base.ty is Array || base.ty is List
            &&& indices@.len() == 1
            &&& indices@[0].ty.whole() == ClTy::I64
            &&& integer_expr(*base, sorts)
            &&& integer_expr(indices@[0], sorts)
        },
        _ => false,
    }
}

/// What an expression on integers means: arithmetic modulo the size of the
/// type. There is no value where a quotient has none, or where memory holds
/// none.
pub open spec fn meaning(e: TypedExpr, names: World) -> Option<int>
    decreases e,
{
    let ty = e.ty.whole();
    match e.kind {
        TypedExprKind::Lit(Lit::Int(n)) => Some(machine::wrap(ty, n as int)),
        TypedExprKind::Ident(n) => if names.contains_key(n@) {
            Some(names[n@])
        } else {
            None
        },
        TypedExprKind::BinOp { op, lhs, rhs } => match (
            meaning(*lhs, names),
            meaning(*rhs, names),
        ) {
            (Some(a), Some(b)) => match op {
                BinOp::Add => Some(machine::wrap(ty, a + b)),
                BinOp::Sub => Some(machine::wrap(ty, a - b)),
                BinOp::Mul => Some(machine::wrap(ty, a * b)),
                BinOp::Div => machine::divided(ty, a, b),
                _ => None,
            },
            _ => None,
        },
        TypedExprKind::Unary { op, operand } => match meaning(*operand, names) {
            Some(a) => Some(machine::wrap(ty, -a)),
            None => None,
        },
        TypedExprKind::FieldAccess { base, field } => match (meaning(*base, names), base.ty) {
            (Some(h), ResolvedTy::Struct { name, fields }) => names.read(
                ty,
                h + state::slot_offset(8, scheme_expr::field_pos(fields@, field@, 0)->0),
            ),
            _ => None,
        },
        TypedExprKind::TupleIndex { base, index } => match meaning(*base, names) {
            Some(h) => names.read(ty, h + state::slot_offset(8, index as nat)),
            None => None,
        },
        TypedExprKind::Index { base, indices } => if indices@.len() == 1 {
            match (meaning(*base, names), meaning(indices@[0], names)) {
                (Some(h), Some(i)) => names.read(ty, element_at(h, header(base.ty), i)),
                _ => None,
            }
        } else {
            None
        },
        _ => None,
    }
}

/// Truth values: literals, names, comparisons of integers of one type, signed
/// where their order counts, conjunctions and disjunctions.
pub open spec fn truth_expr(e: TypedExpr, sorts: Map<Seq<char>, Sort>) -> bool
    decreases e,
{
    e.ty is Bool && match e.kind {
        TypedExprKind::Lit(Lit::Bool(_)) => true,
        TypedExprKind::Ident(n) => sorts.contains_key(n@) && sorts[n@] is Truth,
        TypedExprKind::BinOp { op, lhs, rhs } => match op {
            BinOp::And | BinOp::Or => truth_expr(*lhs, sorts) && truth_expr(*rhs, sorts),
            BinOp::Eq | BinOp::NotEq => {
                &&& lhs.ty == rhs.ty
                &&& lhs.ty is Scalar
                &&& integer_expr(*lhs, sorts)
                &&& integer_expr(*rhs, sorts)
            },
            BinOp::Lt | BinOp::LtEq | BinOp::Gt | BinOp::GtEq => {
                &&& lhs.ty == rhs.ty
                &&& (lhs.ty matches ResolvedTy::Scalar(s) && s.is_signed())
                &&& integer_expr(*lhs, sorts)
                &&& integer_expr(*rhs, sorts)
            },
            _ => false,
        },
        _ => false,
    }
}

/// What a truth value means; a name is true where its value is not zero.
pub open spec fn truth(e: TypedExpr, names: World) -> Option<bool>
    decreases e,
{
    match e.kind {
        TypedExprKind::Lit(Lit::Bool(b)) => Some(b),
        TypedExprKind::Ident(n) => if names.contains_key(n@) {
            Some(names[n@] != 0)
        } else {
            None
        },
        TypedExprKind::BinOp { op, lhs, rhs } => match op {
            BinOp::And => match (truth(*lhs, names), truth(*rhs, names)) {
                (Some(a), Some(b)) => Some(a && b),
                _ => None,
            },
            BinOp::Or => match (truth(*lhs, names), truth(*rhs, names)) {
                (Some(a), Some(b)) => Some(a || b),
                _ => None,
            },
            _ => match (meaning(*lhs, names), meaning(*rhs, names)) {
                (Some(a), Some(b)) => match op {
                    BinOp::Eq => Some(a == b),
                    BinOp::NotEq => Some(a != b),
                    BinOp::Lt => Some(a < b),
                    BinOp::LtEq => Some(a <= b),
                    BinOp::Gt => Some(a > b),
                    BinOp::GtEq => Some(a >= b),
                    _ => None,
                },
                _ => None,
            },
        },
        _ => None,
    }
}

/// Numbers that stand for truth values: zero is false, one and minus one are
/// true.
pub open spec fn is_mask(x: int) -> bool {
    -1 <= x <= 1
}

/// Whether a variable's content stands for a name's value.
pub open spec fn stands_for(sort: Sort, content: int, value: int) -> bool {
    match sort {
        Sort::Integer(_) => content == value,
        Sort::Truth => is_mask(content) && (content != 0) == (value != 0),
    }
}

/// Whether the variables hold the values of the names that are bound to them,
/// memory is what it should be, and the right calls have been made.
pub open spec fn agrees(
    vars: Map<Seq<char>, Var>,
    sorts: Map<Seq<char>, Sort>,
    names: World,
    store: Store,
) -> bool {
    &&& forall|n: Seq<char>|
        #![trigger sorts.contains_key(n)]
        sorts.contains_key(n) ==> {
            &&& names.contains_key(n)
            &&& store.contains_key(vars[n])
            &&& stands_for(sorts[n], store[vars[n]], names[n])
        }
    &&& store.heap == names.heap
    &&& store.passed.len() == 0
}

impl St {
    /// Whether a later state keeps the instructions and their types.
    pub open spec fn grows_to(self, t: St) -> bool {
        &&& t.tys.len() == t.code.len()
        &&& self.code.len() <= t.code.len()
        &&& forall|i: int|
            0 <= i < self.code.len() ==> #[trigger] t.code[i] == self.code[i] && t.tys[i]
                == self.tys[i]
    }

    /// Whether names are bound to variables of their machine types, each to
    /// one of its own.
    pub open spec fn binds(self, sorts: Map<Seq<char>, Sort>) -> bool {
        &&& self.tys.len() == self.code.len()
        &&& forall|n: Seq<char>| #[trigger] sorts.contains_key(n) ==> self.vars.contains_key(n)
        &&& self.fits() ==> forall|n: Seq<char>| #[trigger]
            sorts.contains_key(n) ==> self.val_ty(Val(self.vars[n].0)) == Some(sorts[n].machine())
        &&& self.fits() ==> forall|n: Seq<char>, k: Seq<char>| #[trigger]
            sorts.contains_key(n) && #[trigger] sorts.contains_key(k) && n != k ==> self.vars[n]
                != self.vars[k]
    }

    /// Whether every block that begins between two states was declared there,
    /// and begins there once.
    pub open spec fn owns_blocks(self, t: St) -> bool {
        &&& forall|k: int|
            self.code.len() <= k < t.code.len() && #[trigger] t.code[k] is SwitchTo
                ==> self.code.len() <= t.code[k]->SwitchTo_target.0 < k
        &&& forall|j: int, k: int|
            self.code.len() <= j < k < t.code.len() && #[trigger] t.code[j] is SwitchTo
                && #[trigger] t.code[k] is SwitchTo ==> t.code[j] != t.code[k]
    }
}

impl Prog {
    /// Whether a run from the end of `from` to the end of `to` leads to `end`,
    /// with a value for `v` and no change to the variables.
    pub open spec fn evaluated(self, m: Mach, from: St, to: St, v: Val, end: Mach) -> bool {
        &&& end.pc == to.code.len()
        &&& end.store == m.store
        &&& m.keeps(end, from.code.len())
        &&& end.has(v)
    }

    /// What the instructions between two states come to.
    pub open spec fn between(self, m: Mach, from: St, to: St) -> Event {
        self.run(m, (to.code.len() - from.code.len()) as nat)
    }

    /// Whether the instructions between two states compute a number, or get
    /// stuck where there is none.
    pub open spec fn computes(self, m: Mach, from: St, to: St, v: Val, want: Option<int>) -> bool {
        match (self.between(m, from, to), want) {
            (Event::Go(end), Some(x)) => self.evaluated(m, from, to, v, end) && end.val(v) == x,
            (Event::Stuck, None) => true,
            _ => false,
        }
    }

    /// Whether the instructions between two states compute a truth value, or
    /// get stuck where there is none.
    pub open spec fn decides(self, m: Mach, from: St, to: St, v: Val, want: Option<bool>) -> bool {
        match (self.between(m, from, to), want) {
            (Event::Go(end), Some(b)) => {
                &&& self.evaluated(m, from, to, v, end)
                &&& is_mask(end.val(v))
                &&& (end.val(v) != 0) == b
            },
            (Event::Stuck, None) => true,
            _ => false,
        }
    }
}

pub proof fn grows_on(a: St, b: St, c: St)
    requires
        a.grows_to(b),
        b.grows_to(c),
    ensures
        a.grows_to(c),
{
    assert forall|i: int| 0 <= i < a.code.len() implies #[trigger] c.code[i] == a.code[i]
        && c.tys[i] == a.tys[i] by {
        assert(b.code[i] == a.code[i]);
    }
}

/// What holds of two stretches of code holds of both together.
pub proof fn owns_on(a: St, b: St, c: St)
    requires
        a.grows_to(b),
        b.grows_to(c),
        a.owns_blocks(b),
        b.owns_blocks(c),
    ensures
        a.owns_blocks(c),
{
    assert forall|k: int|
        a.code.len() <= k < c.code.len() && #[trigger] c.code[k] is SwitchTo implies a.code.len()
        <= c.code[k]->SwitchTo_target.0 < k by {
        if k < b.code.len() {
            assert(c.code[k] == b.code[k]);
        }
    }
    assert forall|j: int, k: int|
        a.code.len() <= j < k < c.code.len() && #[trigger] c.code[j] is SwitchTo
            && #[trigger] c.code[k] is SwitchTo implies c.code[j] != c.code[k] by {
        if j < b.code.len() {
            assert(c.code[j] == b.code[j]);
        }
        if k < b.code.len() {
            assert(c.code[k] == b.code[k]);
        }
    }
}

pub proof fn binds_on(a: St, b: St, sorts: Map<Seq<char>, Sort>)
    requires
        a.grows_to(b),
        a.binds(sorts),
        forall|n: Seq<char>|
            #![trigger sorts.contains_key(n)]
            sorts.contains_key(n) ==> b.vars.contains_key(n) && b.vars[n] == a.vars[n],
    ensures
        b.binds(sorts),
{
    if b.fits() {
        assert forall|n: Seq<char>| #[trigger] sorts.contains_key(n) implies b.val_ty(
            Val(b.vars[n].0),
        ) == Some(sorts[n].machine()) by {
            assert(b.code[a.vars[n].0 as int] == a.code[a.vars[n].0 as int]);
        }
    }
}

pub proof fn contains_on(p: Prog, a: St, b: St)
    requires
        a.tys.len() == a.code.len(),
        a.grows_to(b),
        p.contains(b),
    ensures
        p.contains(a),
{
    assert forall|i: int| 0 <= i < a.code.len() implies #[trigger] p.insts[i] == a.code[i]
        && p.tys[i] == a.tys[i] by {
        assert(p.insts[i] == b.code[i]);
        assert(b.code[i] == a.code[i]);
    }
}

/// Both operands of an operator are lowered, then the operator.
proof fn operands_first(st: St, env: EnvView, e: TypedExpr)
    requires
        e.kind is BinOp,
        e.kind->BinOp_lhs.ty is Scalar || e.kind->BinOp_lhs.ty is Bool,
        !(e.kind->BinOp_rhs.ty is Tensor),
    ensures
        ({
            let lhs = *e.kind->BinOp_lhs;
            let rhs = *e.kind->BinOp_rhs;
            let op = e.kind->BinOp_op;
            st.expr(env, e) == match st.expr(env, lhs) {
                Err(x) => Err(x),
                Ok((s1, l)) => match s1.expr(env, rhs) {
                    Err(x) => Err(x),
                    Ok((s2, r)) => match lhs.ty {
                        ResolvedTy::Scalar(s) => s2.scalar_binop(op, l, r, s),
                        _ => s2.bool_binop(op, l, r),
                    },
                },
            }
        }),
{
    assert(st.expr(env, e) == st.binop(env, e));
}

/// The operand of a negation is lowered first.
proof fn operand_first(st: St, env: EnvView, e: TypedExpr)
    requires
        e.kind is Unary,
        e.kind->Unary_op is Neg,
        e.kind->operand.ty is Scalar,
        !e.kind->operand.ty->Scalar_0.is_float(),
    ensures
        st.expr(env, e) == match st.expr(env, *e.kind->operand) {
            Err(x) => Err(x),
            Ok((s1, v)) => Ok(s1.convert(Convert::Ineg, v)),
        },
{
    assert(st.expr(env, e) == st.unary(env, e.kind->Unary_op, *e.kind->operand));
}

proof fn mask_operations(a: int, b: int)
    requires
        is_mask(a),
        is_mask(b),
    ensures
        is_mask(((a as i64) & (b as i64)) as int),
        (((a as i64) & (b as i64)) as int != 0) == (a != 0 && b != 0),
        is_mask(((a as i64) | (b as i64)) as int),
        (((a as i64) | (b as i64)) as int != 0) == (a != 0 || b != 0),
{
    let x = a as i64;
    let y = b as i64;
    assert(-1 <= x & y <= 1 && ((x & y != 0) == (x != 0 && y != 0)) && -1 <= x | y <= 1 && ((x | y
        != 0) == (x != 0 || y != 0))) by (bit_vector)
        requires
            -1 <= x <= 1,
            -1 <= y <= 1,
    ;
}

/// The instruction behind a run from one state to another.
proof fn step_behind(p: Prog, m: Mach, from: St, mid: St, to: St)
    requires
        from.code.len() <= mid.code.len(),
        to.code.len() == mid.code.len() + 1,
    ensures
        p.between(m, from, to) == match p.between(m, from, mid) {
            Event::Go(end) => p.step(end),
            other => other,
        },
{
    let n = (mid.code.len() - from.code.len()) as nat;
    machine::run_more(p, m, n, 1);
    match p.run(m, n) {
        Event::Go(end) => {
            reveal_with_fuel(Prog::run, 2);
            assert(p.run(end, 1) == p.step(end));
        },
        _ => {},
    }
}

/// A run from one state to another, in two parts.
proof fn two_parts(p: Prog, m: Mach, from: St, mid: St, to: St)
    requires
        from.code.len() <= mid.code.len() <= to.code.len(),
    ensures
        p.between(m, from, to) == match p.between(m, from, mid) {
            Event::Go(end) => p.between(end, mid, to),
            other => other,
        },
{
    let n = (mid.code.len() - from.code.len()) as nat;
    machine::run_more(p, m, n, (to.code.len() - mid.code.len()) as nat);
}

/// The code of an expression on integers can be generated.
pub proof fn integers_are_lowered(st: St, env: EnvView, e: TypedExpr, sorts: Map<Seq<char>, Sort>)
    requires
        st.binds(sorts),
        integer_expr(e, sorts),
    ensures
        match st.expr(env, e) {
            Err(_) => false,
            Ok((t, v)) => {
                &&& st.grows_to(t)
                &&& st.owns_blocks(t)
                &&& t.vars == st.vars
                &&& t.fits() ==> v.0 < t.code.len() && t.val_ty(v) == e.ty.machine()
            },
        },
    decreases e,
{
    match e.kind {
        TypedExprKind::Lit(l) => {},
        TypedExprKind::Ident(n) => {
        },
        TypedExprKind::BinOp { op, lhs, rhs } => {
            integers_are_lowered(st, env, *lhs, sorts);
            let (s1, l) = st.expr(env, *lhs)->Ok_0;
            binds_on(st, s1, sorts);
            integers_are_lowered(s1, env, *rhs, sorts);
            let (s2, r) = s1.expr(env, *rhs)->Ok_0;
            grows_on(st, s1, s2);
            owns_on(st, s1, s2);
            operands_first(st, env, e);
            let (t, v) = s2.arith(arith_of(op), l, r);
            assert(st.expr(env, e) == Ok::<(St, Val), Fail>((t, v)));
            assert(s2.grows_to(t));
            grows_on(st, s2, t);
            owns_on(st, s2, t);
            if t.fits() {
                assert(s2.code[l.0 as int] == s1.code[l.0 as int]);
            }
        },
        TypedExprKind::Unary { op, operand } => {
            integers_are_lowered(st, env, *operand, sorts);
            let (s1, x) = st.expr(env, *operand)->Ok_0;
            operand_first(st, env, e);
            let (t, v) = s1.convert(Convert::Ineg, x);
            assert(s1.grows_to(t));
            grows_on(st, s1, t);
            owns_on(st, s1, t);
        },
        TypedExprKind::FieldAccess { base, field } => {
            integers_are_lowered(st, env, *base, sorts);
            let (s1, x) = st.expr(env, *base)->Ok_0;
            load_behind(st, s1, x, e.ty.whole(), slot_of(e));
            field_first(st, env, e, sorts);
        },
        TypedExprKind::TupleIndex { base, index } => {
            integers_are_lowered(st, env, *base, sorts);
            let (s1, x) = st.expr(env, *base)->Ok_0;
            load_behind(st, s1, x, e.ty.whole(), slot_of(e));
        },
        TypedExprKind::Index { base, indices } => {
            integers_are_lowered(st, env, *base, sorts);
            let (s1, x) = st.expr(env, *base)->Ok_0;
            binds_on(st, s1, sorts);
            integers_are_lowered(s1, env, indices@[0], sorts);
            let (s2, i) = s1.expr(env, indices@[0])->Ok_0;
            index_first(st, env, e, sorts);
            grows_on(st, s1, s2);
            owns_on(st, s1, s2);
            let h = header(base.ty);
            let (s3, a) = s2.slot_addr(x, i, h);
            assert(s2.grows_to(s3) && s2.owns_blocks(s3) && s3.vars == s2.vars);
            grows_on(st, s2, s3);
            owns_on(st, s2, s3);
            load_behind(st, s3, a, e.ty.whole(), 0);
        },
        _ => {},
    }
}

/// The offset at which a field or a member of a tuple is read.
spec fn slot_of(e: TypedExpr) -> i32 {
    match e.kind {
        TypedExprKind::FieldAccess { base, field } => state::slot_offset(
            8,
            scheme_expr::field_pos(base.ty->Struct_fields@, field@, 0)->0,
        ),
        TypedExprKind::TupleIndex { base, index } => state::slot_offset(8, index as nat),
        _ => 0,
    }
}

/// A read from memory behind a stretch of code.
proof fn load_behind(st: St, s1: St, x: Val, ty: ClTy, offset: i32)
    requires
        st.grows_to(s1),
        st.owns_blocks(s1),
        s1.vars == st.vars,
    ensures
        ({
            let (t, v) = s1.load(ty, x, offset);
            &&& st.grows_to(t)
            &&& s1.grows_to(t)
            &&& st.owns_blocks(t)
            &&& t.vars == st.vars
            &&& t.fits() ==> v.0 < t.code.len() && t.val_ty(v) == Some(ty)
        }),
{
    let (t, v) = s1.load(ty, x, offset);
    assert(s1.grows_to(t));
    assert(s1.owns_blocks(t));
    grows_on(st, s1, t);
    owns_on(st, s1, t);
}

/// The struct is lowered first, then the read of its field.
proof fn field_first(st: St, env: EnvView, e: TypedExpr, sorts: Map<Seq<char>, Sort>)
    requires
        integer_expr(e, sorts),
        e.kind is FieldAccess,
    ensures
        st.expr(env, e) == match st.expr(env, *e.kind->FieldAccess_base) {
            Err(x) => Err(x),
            Ok((s1, ptr)) => Ok(s1.load(e.ty.whole(), ptr, slot_of(e))),
        },
{
    let base = *e.kind->FieldAccess_base;
    let field = e.kind->field@;
    assert(st.expr(env, e) == st.field_access(env, base, field, e.ty));
    assert(e.ty.machine() == Some(e.ty.whole()));
}

/// The array and the index are lowered first, then the address, then the read.
proof fn index_first(st: St, env: EnvView, e: TypedExpr, sorts: Map<Seq<char>, Sort>)
    requires
        integer_expr(e, sorts),
        e.kind is Index,
    ensures
        ({
            let base = *e.kind->Index_base;
            st.expr(env, e) == match st.expr(env, base) {
                Err(x) => Err(x),
                Ok((s1, ptr)) => match s1.expr(env, e.kind->indices@[0]) {
                    Err(x) => Err(x),
                    Ok((s2, i)) => {
                        let (s3, addr) = s2.slot_addr(ptr, i, header(base.ty));
                        Ok(s3.load(e.ty.whole(), addr, 0))
                    },
                },
            }
        }),
{
    let base = *e.kind->Index_base;
    let indices = e.kind->indices@;
    assert(st.expr(env, e) == st.index_expr(env, e));
    assert(st.index_expr(env, e) == st.index_value(env, e)) by {
        reveal_with_fuel(integer_expr, 2);
    }
    assert(e.ty.machine() == Some(e.ty.whole()));
    match st.expr(env, base) {
        Ok((s1, ptr)) => {
            match s1.expr(env, indices[0]) {
                Ok((s2, i)) => {
                    let vs = Seq::<Val>::empty().push(i);
                    assert(s2.list(env, indices, 1, 1, vs) == Ok::<(St, Seq<Val>), Fail>((s2, vs)));
                    assert(vs[0] == i);
                },
                _ => {},
            }
        },
        _ => {},
    }
}

/// A read from memory, when it runs behind a value.
proof fn read_runs(
    p: Prog,
    st: St,
    s1: St,
    x: Val,
    ty: ClTy,
    offset: i32,
    m: Mach,
    h: Option<int>,
    names: World,
)
    requires
        st.grows_to(s1),
        st.tys.len() == st.code.len(),
        p.contains(s1.load(ty, x, offset).0),
        p.computes(m, st, s1, x, h),
        m.store.heap == names.heap,
    ensures
        p.computes(
            m,
            st,
            s1.load(ty, x, offset).0,
            s1.load(ty, x, offset).1,
            match h {
                Some(h) => names.read(ty, h + offset),
                None => None,
            },
        ),
{
    let (t, v) = s1.load(ty, x, offset);
    step_behind(p, m, st, s1, t);
    assert(p.insts[s1.code.len() as int] == t.code[s1.code.len() as int]);
}

/// The address of an element, when its code runs behind the handle and the
/// index.
pub proof fn address_runs(p: Prog, s2: St, ptr: Val, i: Val, h: i64, m: Mach)
    requires
        s2.tys.len() == s2.code.len(),
        p.contains(s2.slot_addr(ptr, i, h).0),
        m.pc == s2.code.len(),
        m.has(ptr),
        m.has(i),
        s2.val_ty(ptr) == Some(ClTy::I64),
        s2.val_ty(i) == Some(ClTy::I64),
    ensures
        p.computes(
            m,
            s2,
            s2.slot_addr(ptr, i, h).0,
            s2.slot_addr(ptr, i, h).1,
            Some(element_at(m.val(ptr), h, m.val(i))),
        ),
{
    let (a, eight) = s2.iconst(ClTy::I64, 8);
    let (b, off) = a.arith(Arith::Imul, i, eight);
    let t = s2.slot_addr(ptr, i, h).0;
    vstd::arithmetic::div_mod::lemma_small_mod(8, 0x1_0000_0000_0000_0000);
    assert(p.between(m, s2, s2) == Event::Go(m));
    step_behind(p, m, s2, s2, a);
    step_behind(p, m, s2, a, b);
    assert(p.insts[s2.code.len() as int] == t.code[s2.code.len() as int]);
    assert(p.insts[a.code.len() as int] == t.code[a.code.len() as int]);
    assert(p.insts[b.code.len() as int] == t.code[b.code.len() as int]);
    assert(p.insts[i.0 as int] == t.code[i.0 as int]);
    assert(p.insts[ptr.0 as int] == t.code[ptr.0 as int]);
    if h == 0 {
        step_behind(p, m, s2, b, t);
    } else {
        let (c, off2) = b.val(Inst::IaddImm { val: off, imm: h });
        assert(p.insts[c.code.len() as int] == t.code[c.code.len() as int]);
        assert(p.insts[off.0 as int] == t.code[off.0 as int]);
        step_behind(p, m, s2, b, c);
        step_behind(p, m, s2, c, t);
    }
}

/// The instruction for an operator on integers.
spec fn arith_of(op: BinOp) -> Arith {
    match op {
        BinOp::Add => Arith::Iadd,
        BinOp::Sub => Arith::Isub,
        BinOp::Mul => Arith::Imul,
        BinOp::And => Arith::Band,
        BinOp::Or => Arith::Bor,
        _ => Arith::Sdiv,
    }
}

/// Both operands of an operator are run, then the operator.
proof fn operands_run(p: Prog, st: St, s1: St, s2: St, t: St, l: Val, r: Val, m: Mach)
    requires
        st.grows_to(s1),
        s1.grows_to(s2),
        s2.grows_to(t),
        st.tys.len() == st.code.len(),
        t.code.len() == s2.code.len() + 1,
        p.contains(t),
        l.0 < s1.code.len(),
    ensures
        p.contains(s1),
        p.contains(s2),
        p.between(m, st, t) == match p.between(m, st, s1) {
            Event::Go(m1) => match p.between(m1, s1, s2) {
                Event::Go(m2) => p.step(m2),
                other => other,
            },
            other => other,
        },
        forall|m1: Mach, m2: Mach|
            #![trigger m.keeps(m1, st.code.len()), m1.keeps(m2, s1.code.len())]
            p.evaluated(m, st, s1, l, m1) && p.evaluated(m1, s1, s2, r, m2) ==> {
                &&& m2.pc == s2.code.len()
                &&& m2.store == m.store
                &&& m.keeps(m2, st.code.len())
                &&& m2.has(l)
                &&& m2.val(l) == m1.val(l)
                &&& m2.has(r)
            },
        p.insts[s2.code.len() as int] == t.code[s2.code.len() as int],
        p.tys[l.0 as int] == s1.tys[l.0 as int],
{
    contains_on(p, s2, t);
    contains_on(p, s1, s2);
    two_parts(p, m, st, s1, s2);
    step_behind(p, m, st, s2, t);
    assert(p.insts[l.0 as int] == s1.code[l.0 as int]);
    assert forall|m1: Mach, m2: Mach|
        #![trigger m.keeps(m1, st.code.len()), m1.keeps(m2, s1.code.len())]
        p.evaluated(m, st, s1, l, m1) && p.evaluated(m1, s1, s2, r, m2) implies {
        &&& m2.pc == s2.code.len()
        &&& m2.store == m.store
        &&& m.keeps(m2, st.code.len())
        &&& m2.has(l)
        &&& m2.val(l) == m1.val(l)
        &&& m2.has(r)
    } by {
        assert forall|q: nat|
            #![trigger m2.vals.contains_key(q)]
            #![trigger m2.vals[q]]
            q < st.code.len() && m.vals.contains_key(q) implies m2.vals.contains_key(q)
            && m2.vals[q] == m.vals[q] by {
            assert(m1.vals[q] == m.vals[q]);
        }
        assert(m2.vals[l.0 as nat] == m1.vals[l.0 as nat]);
    }
}

spec fn address_of(handle: Option<int>, i: Option<int>, header: i64) -> Option<int> {
    match (handle, i) {
        (Some(h), Some(i)) => Some(element_at(h, header, i)),
        _ => None,
    }
}

/// The address of an element, behind the code of the handle and of the index.
proof fn address_behind(
    p: Prog,
    st: St,
    s1: St,
    s2: St,
    x: Val,
    i: Val,
    h: i64,
    m: Mach,
    bh: Option<int>,
    bi: Option<int>,
)
    requires
        st.grows_to(s1),
        s1.grows_to(s2),
        p.contains(s2.slot_addr(x, i, h).0),
        x.0 < s1.code.len(),
        s1.val_ty(x) == Some(ClTy::I64),
        s2.val_ty(i) == Some(ClTy::I64),
        p.computes(m, st, s1, x, bh),
        forall|m1: Mach|
            p.between(m, st, s1) == Event::Go(m1) ==> #[trigger] p.computes(m1, s1, s2, i, bi),
    ensures
        p.computes(
            m,
            st,
            s2.slot_addr(x, i, h).0,
            s2.slot_addr(x, i, h).1,
            address_of(bh, bi, h),
        ),
{
    let (s3, a) = s2.slot_addr(x, i, h);
    assert(s2.code.len() <= s3.code.len());
    two_parts(p, m, st, s1, s2);
    two_parts(p, m, st, s2, s3);
    match p.between(m, st, s1) {
        Event::Go(m1) => {
            assert(p.computes(m1, s1, s2, i, bi));
            match p.between(m1, s1, s2) {
                Event::Go(m2) => {
                    keeps_on(m, m1, m2, st.code.len(), s1.code.len());
                    assert(m2.vals.contains_key(x.0 as nat));
                    assert(m2.vals[x.0 as nat] == m1.vals[x.0 as nat]);
                    assert(s2.code[x.0 as int] == s1.code[x.0 as int]);
                    address_runs(p, s2, x, i, h, m2);
                    let m3 = p.between(m2, s2, s3)->Go_0;
                    keeps_on(m, m2, m3, st.code.len(), s2.code.len());
                },
                _ => {},
            }
        },
        _ => {},
    }
}

/// How the code of an element is laid out.
proof fn index_shape(st: St, env: EnvView, e: TypedExpr, sorts: Map<Seq<char>, Sort>)
    requires
        st.binds(sorts),
        integer_expr(e, sorts),
        e.kind is Index,
    ensures
        ({
            let base = *e.kind->Index_base;
            let index = e.kind->indices@[0];
            let (s1, x) = st.expr(env, base)->Ok_0;
            let (s2, i) = s1.expr(env, index)->Ok_0;
            let (s3, a) = s2.slot_addr(x, i, header(base.ty));
            let (t, v) = s3.load(e.ty.whole(), a, 0);
            &&& integer_expr(base, sorts)
            &&& integer_expr(index, sorts)
            &&& st.expr(env, base) is Ok
            &&& s1.expr(env, index) is Ok
            &&& st.expr(env, e) == Ok::<(St, Val), Fail>((t, v))
            &&& s1.binds(sorts)
            &&& s1.vars == st.vars
            &&& st.grows_to(s1)
            &&& s1.grows_to(s2)
            &&& s2.grows_to(s3)
            &&& s3.grows_to(t)
            &&& st.grows_to(s3)
            &&& s1.fits() ==> x.0 < s1.code.len() && s1.val_ty(x) == Some(ClTy::I64)
            &&& s2.fits() ==> s2.val_ty(i) == Some(ClTy::I64)
        }),
{
    let base = *e.kind->Index_base;
    let index = e.kind->indices@[0];
    integers_are_lowered(st, env, base, sorts);
    let (s1, x) = st.expr(env, base)->Ok_0;
    binds_on(st, s1, sorts);
    integers_are_lowered(s1, env, index, sorts);
    let (s2, i) = s1.expr(env, index)->Ok_0;
    let (s3, a) = s2.slot_addr(x, i, header(base.ty));
    let (t, v) = s3.load(e.ty.whole(), a, 0);
    index_first(st, env, e, sorts);
    assert(s2.grows_to(s3));
    assert(s3.grows_to(t));
    grows_on(st, s1, s2);
    grows_on(st, s2, s3);
    assert(base.ty.machine() == Some(ClTy::I64));
    assert(index.ty.machine() == Some(ClTy::I64)) by {
        reveal_with_fuel(integer_expr, 2);
    }
}

/// The code of an element computes what memory holds there, or nothing.
proof fn elements_are_computed(
    p: Prog,
    st: St,
    env: EnvView,
    e: TypedExpr,
    sorts: Map<Seq<char>, Sort>,
    names: World,
    m: Mach,
)
    requires
        st.binds(sorts),
        integer_expr(e, sorts),
        e.kind is Index,
        st.expr(env, e) is Ok,
        p.contains(st.expr(env, e)->Ok_0.0),
        m.pc == st.code.len(),
        agrees(st.vars, sorts, names, m.store),
    ensures
        p.computes(m, st, st.expr(env, e)->Ok_0.0, st.expr(env, e)->Ok_0.1, meaning(e, names)),
    decreases e, 0nat,
{
    let base = *e.kind->Index_base;
    let index = e.kind->indices@[0];
    let h = header(base.ty);
    index_shape(st, env, e, sorts);
    let (t, v) = st.expr(env, e)->Ok_0;
    let (s1, x) = st.expr(env, base)->Ok_0;
    let (s2, i) = s1.expr(env, index)->Ok_0;
    let (s3, a) = s2.slot_addr(x, i, h);
    contains_on(p, s3, t);
    contains_on(p, s2, s3);
    contains_on(p, s1, s2);
    let bh = meaning(base, names);
    let bi = meaning(index, names);
    integers_are_computed(p, st, env, base, sorts, names, m);
    assert forall|m1: Mach| p.between(m, st, s1) == Event::Go(m1) implies #[trigger] p.computes(
        m1,
        s1,
        s2,
        i,
        bi,
    ) by {
        integers_are_computed(p, s1, env, index, sorts, names, m1);
    }
    address_behind(p, st, s1, s2, x, i, h, m, bh, bi);
    read_runs(p, st, s3, a, e.ty.whole(), 0, m, address_of(bh, bi, h), names);
}

/// The code of an expression on integers computes what the expression means:
/// the same number, or none.
pub proof fn integers_are_computed(
    p: Prog,
    st: St,
    env: EnvView,
    e: TypedExpr,
    sorts: Map<Seq<char>, Sort>,
    names: World,
    m: Mach,
)
    requires
        st.binds(sorts),
        integer_expr(e, sorts),
        st.expr(env, e) is Ok,
        p.contains(st.expr(env, e)->Ok_0.0),
        m.pc == st.code.len(),
        agrees(st.vars, sorts, names, m.store),
    ensures
        p.computes(m, st, st.expr(env, e)->Ok_0.0, st.expr(env, e)->Ok_0.1, meaning(e, names)),
    decreases e, 1nat,
{
    integers_are_lowered(st, env, e, sorts);
    let (t, v) = st.expr(env, e)->Ok_0;
    match e.kind {
        TypedExprKind::Lit(l) => {
            step_behind(p, m, st, st, t);
            assert(p.insts[st.code.len() as int] == t.code[st.code.len() as int]);
        },
        TypedExprKind::Ident(n) => {
            step_behind(p, m, st, st, t);
            assert(p.insts[st.code.len() as int] == t.code[st.code.len() as int]);
        },
        TypedExprKind::BinOp { op, lhs, rhs } => {
            integers_are_lowered(st, env, *lhs, sorts);
            let (s1, l) = st.expr(env, *lhs)->Ok_0;
            binds_on(st, s1, sorts);
            integers_are_lowered(s1, env, *rhs, sorts);
            let (s2, r) = s1.expr(env, *rhs)->Ok_0;
            operands_first(st, env, e);
            assert(st.expr(env, e) == Ok::<(St, Val), Fail>(s2.arith(arith_of(op), l, r)));
            assert(s2.grows_to(t));
            operands_run(p, st, s1, s2, t, l, r, m);
            integers_are_computed(p, st, env, *lhs, sorts, names, m);
            match p.between(m, st, s1) {
                Event::Go(m1) => {
                    integers_are_computed(p, s1, env, *rhs, sorts, names, m1);
                    match p.between(m1, s1, s2) {
                        Event::Go(m2) => {
                            assert(m.keeps(m1, st.code.len()) && m1.keeps(m2, s1.code.len()));
                        },
                        _ => {},
                    }
                },
                _ => {},
            }
        },
        TypedExprKind::Unary { op, operand } => {
            integers_are_lowered(st, env, *operand, sorts);
            let (s1, x) = st.expr(env, *operand)->Ok_0;
            operand_first(st, env, e);
            assert(s1.grows_to(t));
            contains_on(p, s1, t);
            integers_are_computed(p, st, env, *operand, sorts, names, m);
            step_behind(p, m, st, s1, t);
            assert(p.insts[s1.code.len() as int] == t.code[s1.code.len() as int]);
            assert(p.insts[x.0 as int] == s1.code[x.0 as int]);
        },
        TypedExprKind::FieldAccess { base, field } => {
            integers_are_lowered(st, env, *base, sorts);
            let (s1, x) = st.expr(env, *base)->Ok_0;
            field_first(st, env, e, sorts);
            assert(s1.grows_to(t));
            contains_on(p, s1, t);
            integers_are_computed(p, st, env, *base, sorts, names, m);
            read_runs(
                p,
                st,
                s1,
                x,
                e.ty.whole(),
                slot_of(e),
                m,
                meaning(*base, names),
                names,
            );
        },
        TypedExprKind::TupleIndex { base, index } => {
            integers_are_lowered(st, env, *base, sorts);
            let (s1, x) = st.expr(env, *base)->Ok_0;
            assert(s1.grows_to(t));
            contains_on(p, s1, t);
            integers_are_computed(p, st, env, *base, sorts, names, m);
            read_runs(
                p,
                st,
                s1,
                x,
                e.ty.whole(),
                slot_of(e),
                m,
                meaning(*base, names),
                names,
            );
        },
        TypedExprKind::Index { .. } => {
            elements_are_computed(p, st, env, e, sorts, names, m);
        },
        _ => {},
    }
}

pub proof fn keeps_on(a: Mach, b: Mach, c: Mach, n: nat, k: nat)
    requires
        a.keeps(b, n),
        b.keeps(c, k),
        n <= k,
    ensures
        a.keeps(c, n),
{
    assert forall|q: nat|
        #![trigger c.vals.contains_key(q)]
        #![trigger c.vals[q]]
        q < n && a.vals.contains_key(q) implies c.vals.contains_key(q) && c.vals[q]
        == a.vals[q] by {
        assert(b.vals[q] == a.vals[q]);
    }
}

/// The instructions for a comparison.
spec fn compare_of(op: BinOp) -> (FloatCc, IntCc) {
    match op {
        BinOp::Eq => (FloatCc::Equal, IntCc::Equal),
        BinOp::NotEq => (FloatCc::NotEqual, IntCc::NotEqual),
        BinOp::Lt => (FloatCc::LessThan, IntCc::SignedLessThan),
        BinOp::LtEq => (FloatCc::LessThanOrEqual, IntCc::SignedLessThanOrEqual),
        BinOp::Gt => (FloatCc::GreaterThan, IntCc::SignedGreaterThan),
        _ => (FloatCc::GreaterThanOrEqual, IntCc::SignedGreaterThanOrEqual),
    }
}

/// A comparison of integers is lowered to its operands, a test and a mask.
proof fn comparison_first(st: St, env: EnvView, e: TypedExpr, sorts: Map<Seq<char>, Sort>)
    requires
        st.binds(sorts),
        truth_expr(e, sorts),
        e.kind is BinOp,
        !(e.kind->BinOp_op is And),
        !(e.kind->BinOp_op is Or),
    ensures
        ({
            let lhs = *e.kind->BinOp_lhs;
            let rhs = *e.kind->BinOp_rhs;
            let (s1, l) = st.expr(env, lhs)->Ok_0;
            let (s2, r) = s1.expr(env, rhs)->Ok_0;
            let (s3, flag) = s2.val(
                Inst::IntCompare { icc: compare_of(e.kind->BinOp_op).1, lhs: l, rhs: r },
            );
            let (t, v) = s3.convert(Convert::Bmask8, flag);
            &&& integer_expr(lhs, sorts)
            &&& integer_expr(rhs, sorts)
            &&& st.expr(env, lhs) is Ok
            &&& st.grows_to(s1)
            &&& s1.binds(sorts)
            &&& s1.vars == st.vars
            &&& s1.expr(env, rhs) is Ok
            &&& s1.grows_to(s2)
            &&& s2.vars == st.vars
            &&& s2.grows_to(s3)
            &&& s3.grows_to(t)
            &&& st.grows_to(t)
            &&& st.owns_blocks(t)
            &&& t.fits() ==> l.0 < s1.code.len()
            &&& st.expr(env, e) == Ok::<(St, Val), Fail>((t, v))
        }),
{
    let lhs = *e.kind->BinOp_lhs;
    let rhs = *e.kind->BinOp_rhs;
    integers_are_lowered(st, env, lhs, sorts);
    let (s1, l) = st.expr(env, lhs)->Ok_0;
    binds_on(st, s1, sorts);
    integers_are_lowered(s1, env, rhs, sorts);
    let (s2, r) = s1.expr(env, rhs)->Ok_0;
    operands_first(st, env, e);
    let (fcc, icc) = compare_of(e.kind->BinOp_op);
    assert(st.expr(env, e) == Ok::<(St, Val), Fail>(s2.compare(false, fcc, icc, l, r)));
    let (s3, flag) = s2.val(Inst::IntCompare { icc, lhs: l, rhs: r });
    let (t, v) = s3.convert(Convert::Bmask8, flag);
    assert(s2.grows_to(s3));
    assert(s3.grows_to(t));
    grows_on(st, s1, s2);
    grows_on(st, s2, s3);
    grows_on(st, s3, t);
    owns_on(st, s1, s2);
    owns_on(st, s2, s3);
    owns_on(st, s3, t);
}

/// The code of a truth value can be generated.
pub proof fn truths_are_lowered(st: St, env: EnvView, e: TypedExpr, sorts: Map<Seq<char>, Sort>)
    requires
        st.binds(sorts),
        truth_expr(e, sorts),
    ensures
        match st.expr(env, e) {
            Err(_) => false,
            Ok((t, v)) => {
                &&& st.grows_to(t)
                &&& st.owns_blocks(t)
                &&& t.vars == st.vars
                &&& t.fits() ==> v.0 < t.code.len() && t.val_ty(v) == Some(ClTy::I8)
            },
        },
    decreases e,
{
    match e.kind {
        TypedExprKind::Lit(l) => {},
        TypedExprKind::Ident(n) => {},
        TypedExprKind::BinOp { op, lhs, rhs } => {
            if op is And || op is Or {
                reveal_with_fuel(truth_expr, 2);
                truths_are_lowered(st, env, *lhs, sorts);
                let (s1, l) = st.expr(env, *lhs)->Ok_0;
                binds_on(st, s1, sorts);
                truths_are_lowered(s1, env, *rhs, sorts);
                let (s2, r) = s1.expr(env, *rhs)->Ok_0;
                grows_on(st, s1, s2);
                owns_on(st, s1, s2);
                operands_first(st, env, e);
                let (t, v) = s2.arith(arith_of(op), l, r);
                assert(st.expr(env, e) == Ok::<(St, Val), Fail>((t, v)));
                assert(s2.grows_to(t));
                grows_on(st, s2, t);
                owns_on(st, s2, t);
                if t.fits() {
                    assert(s2.code[l.0 as int] == s1.code[l.0 as int]);
                }
            } else {
                comparison_first(st, env, e, sorts);
            }
        },
        _ => {},
    }
}

proof fn comparisons_are_computed(
    p: Prog,
    st: St,
    env: EnvView,
    e: TypedExpr,
    sorts: Map<Seq<char>, Sort>,
    names: World,
    m: Mach,
)
    requires
        st.binds(sorts),
        truth_expr(e, sorts),
        e.kind is BinOp,
        !(e.kind->BinOp_op is And),
        !(e.kind->BinOp_op is Or),
        st.expr(env, e) is Ok,
        p.contains(st.expr(env, e)->Ok_0.0),
        m.pc == st.code.len(),
        agrees(st.vars, sorts, names, m.store),
    ensures
        p.decides(m, st, st.expr(env, e)->Ok_0.0, st.expr(env, e)->Ok_0.1, truth(e, names)),
{
    let op = e.kind->BinOp_op;
    let lhs = *e.kind->BinOp_lhs;
    let rhs = *e.kind->BinOp_rhs;
    comparison_first(st, env, e, sorts);
    let (s1, l) = st.expr(env, lhs)->Ok_0;
    let (s2, r) = s1.expr(env, rhs)->Ok_0;
    let (s3, flag) = s2.val(Inst::IntCompare { icc: compare_of(op).1, lhs: l, rhs: r });
    let (t, v) = st.expr(env, e)->Ok_0;
    contains_on(p, s3, t);
    operands_run(p, st, s1, s2, s3, l, r, m);
    step_behind(p, m, st, s3, t);
    assert(p.insts[s3.code.len() as int] == t.code[s3.code.len() as int]);
    assert(p.insts[s2.code.len() as int] == s3.code[s2.code.len() as int]);
    integers_are_computed(p, st, env, lhs, sorts, names, m);
    match p.between(m, st, s1) {
        Event::Go(m1) => {
            integers_are_computed(p, s1, env, rhs, sorts, names, m1);
            match p.between(m1, s1, s2) {
                Event::Go(m2) => {
                    assert(m.keeps(m1, st.code.len()) && m1.keeps(m2, s1.code.len()));
                },
                _ => {},
            }
        },
        _ => {},
    }
}

/// The code of a truth value computes a number that stands for what it means,
/// or none.
pub proof fn truths_are_computed(
    p: Prog,
    st: St,
    env: EnvView,
    e: TypedExpr,
    sorts: Map<Seq<char>, Sort>,
    names: World,
    m: Mach,
)
    requires
        st.binds(sorts),
        truth_expr(e, sorts),
        st.expr(env, e) is Ok,
        p.contains(st.expr(env, e)->Ok_0.0),
        m.pc == st.code.len(),
        agrees(st.vars, sorts, names, m.store),
    ensures
        p.decides(m, st, st.expr(env, e)->Ok_0.0, st.expr(env, e)->Ok_0.1, truth(e, names)),
    decreases e,
{
    truths_are_lowered(st, env, e, sorts);
    let (t, v) = st.expr(env, e)->Ok_0;
    match e.kind {
        TypedExprKind::Lit(l) => {
            step_behind(p, m, st, st, t);
            assert(p.insts[st.code.len() as int] == t.code[st.code.len() as int]);
            assert(machine::wrap(ClTy::I8, 0) == 0 && machine::wrap(ClTy::I8, 1) == 1);
        },
        TypedExprKind::Ident(n) => {
            step_behind(p, m, st, st, t);
            assert(p.insts[st.code.len() as int] == t.code[st.code.len() as int]);
        },
        TypedExprKind::BinOp { op, lhs, rhs } => {
            if op is And || op is Or {
                reveal_with_fuel(truth_expr, 2);
                truths_are_lowered(st, env, *lhs, sorts);
                let (s1, l) = st.expr(env, *lhs)->Ok_0;
                binds_on(st, s1, sorts);
                truths_are_lowered(s1, env, *rhs, sorts);
                let (s2, r) = s1.expr(env, *rhs)->Ok_0;
                operands_first(st, env, e);
                assert(st.expr(env, e) == Ok::<(St, Val), Fail>(s2.arith(arith_of(op), l, r)));
                assert(s2.grows_to(t));
                operands_run(p, st, s1, s2, t, l, r, m);
                truths_are_computed(p, st, env, *lhs, sorts, names, m);
                match p.between(m, st, s1) {
                    Event::Go(m1) => {
                        truths_are_computed(p, s1, env, *rhs, sorts, names, m1);
                        match p.between(m1, s1, s2) {
                            Event::Go(m2) => {
                                assert(m.keeps(m1, st.code.len()) && m1.keeps(
                                    m2,
                                    s1.code.len(),
                                ));
                                mask_operations(m2.val(l), m2.val(r));
                            },
                            _ => {},
                        }
                    },
                    _ => {},
                }
            } else {
                comparisons_are_computed(p, st, env, e, sorts, names, m);
            }
        },
        _ => {},
    }
}

} // verus!
