//! All kernels of a program, numbered.

use crate::codegen_gpu::builtins::{BuiltinKernel, UnaryFn};
use crate::codegen_gpu::error::{CodegenError, Fail};
use crate::codegen_gpu::kernel;
use crate::codegen_gpu::kernel::lower_kernel;
use crate::codegen_gpu::registry::KernelRegistry;
use crate::typed::{BinOp, TypedFn, TypedKernel, TypedProgram};
use vstd::hash_map::StringHashMap;
use vstd::prelude::*;

verus! {

/// Kernels so far: the next number, sources by number, numbers by name.
#[verifier::ext_equal]
pub struct Kernels {
    pub next: u64,
    pub sources: Map<u64, Seq<char>>,
    pub names: Map<Seq<char>, u64>,
}

impl Kernels {
    /// With a kernel under the next number.
    pub open spec fn with(self, name: Seq<char>, source: Seq<char>) -> Kernels {
        Kernels {
            next: self.next.wrapping_add(1),
            sources: self.sources.insert(self.next, source),
            names: self.names.insert(name, self.next),
        }
    }

    /// The kernels of a program from position `i` on. A kernel that cannot be
    /// generated still uses up a number.
    pub open spec fn user_kernels(self, ks: Seq<TypedKernel>, i: nat) -> (u64, Result<
        Kernels,
        Fail,
    >)
        decreases ks.len() - i,
    {
        if i >= ks.len() {
            (self.next, Ok(self))
        } else {
            match kernel::kernel_source(ks[i as int], self.next) {
                Err(x) => (self.next.wrapping_add(1), Err(x)),
                Ok(s) => self.with(ks[i as int].name@, s).user_kernels(ks, i + 1),
            }
        }
    }

    /// With the kernel of a built-in operation, where functions use it. A
    /// kernel on two tensors replaces one of its name; others leave it.
    pub open spec fn builtin(self, fns: Seq<TypedFn>, b: BuiltinKernel) -> (u64, Result<
        Kernels,
        Fail,
    >) {
        match b.text() {
            None => (self.next, Ok(self)),
            Some(name) => if !b.in_fns(fns, 0) || (!(b is Tensors) && self.names.contains_key(
                name,
            )) {
                (self.next, Ok(self))
            } else {
                match b.source(self.next) {
                    Err(x) => (self.next.wrapping_add(1), Err(x)),
                    Ok(s) => (self.next.wrapping_add(1), Ok(self.with(name, s))),
                }
            },
        }
    }

    /// With the kernels of the built-in operations from position `i` on.
    pub open spec fn builtins(self, fns: Seq<TypedFn>, bs: Seq<BuiltinKernel>, i: nat) -> (
        u64,
        Result<Kernels, Fail>,
    )
        decreases bs.len() - i,
    {
        if i >= bs.len() {
            (self.next, Ok(self))
        } else {
            match self.builtin(fns, bs[i as int]) {
                (n, Err(x)) => (n, Err(x)),
                (_, Ok(s)) => s.builtins(fns, bs, i + 1),
            }
        }
    }
}

/// The built-in operations in the order in which their kernels are numbered.
pub open spec fn builtin_order() -> Seq<BuiltinKernel> {
    seq![
        BuiltinKernel::Tensors(BinOp::Add),
        BuiltinKernel::Tensors(BinOp::Sub),
        BuiltinKernel::Tensors(BinOp::Mul),
        BuiltinKernel::Tensors(BinOp::Div),
        BuiltinKernel::Scalar { op: BinOp::Add, right: false },
        BuiltinKernel::Scalar { op: BinOp::Add, right: true },
        BuiltinKernel::Scalar { op: BinOp::Sub, right: false },
        BuiltinKernel::Scalar { op: BinOp::Sub, right: true },
        BuiltinKernel::Scalar { op: BinOp::Mul, right: false },
        BuiltinKernel::Scalar { op: BinOp::Mul, right: true },
        BuiltinKernel::Scalar { op: BinOp::Div, right: false },
        BuiltinKernel::Scalar { op: BinOp::Div, right: true },
        BuiltinKernel::Unary(UnaryFn::Abs),
        BuiltinKernel::Unary(UnaryFn::Exp),
        BuiltinKernel::Unary(UnaryFn::Log),
        BuiltinKernel::Unary(UnaryFn::Relu),
        BuiltinKernel::Unary(UnaryFn::Sigmoid),
        BuiltinKernel::Unary(UnaryFn::Sqrt),
        BuiltinKernel::Unary(UnaryFn::Tanh),
    ]
}

/// All kernels of a program, numbered from `next` on, and the number after
/// them.
pub open spec fn program_kernels(p: TypedProgram, next: u64) -> (u64, Result<Kernels, Fail>) {
    let start = Kernels { next, sources: Map::empty(), names: Map::empty() };
    match start.user_kernels(p.kernels@, 0) {
        (n, Err(x)) => (n, Err(x)),
        (_, Ok(s)) => s.builtins(p.fns@, builtin_order(), 0),
    }
}

fn builtin_list() -> (r: Vec<BuiltinKernel>)
    ensures
        r@ == builtin_order(),
{
    let v: Vec<BuiltinKernel> = vec![
        BuiltinKernel::Tensors(BinOp::Add),
        BuiltinKernel::Tensors(BinOp::Sub),
        BuiltinKernel::Tensors(BinOp::Mul),
        BuiltinKernel::Tensors(BinOp::Div),
        BuiltinKernel::Scalar { op: BinOp::Add, right: false },
        BuiltinKernel::Scalar { op: BinOp::Add, right: true },
        BuiltinKernel::Scalar { op: BinOp::Sub, right: false },
        BuiltinKernel::Scalar { op: BinOp::Sub, right: true },
        BuiltinKernel::Scalar { op: BinOp::Mul, right: false },
        BuiltinKernel::Scalar { op: BinOp::Mul, right: true },
        BuiltinKernel::Scalar { op: BinOp::Div, right: false },
        BuiltinKernel::Scalar { op: BinOp::Div, right: true },
        BuiltinKernel::Unary(UnaryFn::Abs),
        BuiltinKernel::Unary(UnaryFn::Exp),
        BuiltinKernel::Unary(UnaryFn::Log),
        BuiltinKernel::Unary(UnaryFn::Relu),
        BuiltinKernel::Unary(UnaryFn::Sigmoid),
        BuiltinKernel::Unary(UnaryFn::Sqrt),
        BuiltinKernel::Unary(UnaryFn::Tanh),
    ];
    assert(v@ =~= builtin_order());
    v
}

/// Generates all kernels of a program. `next` is the number of the next
/// kernel; keeping it from program to program keeps numbers unique.
pub fn compile_kernels(program: &TypedProgram, next: &mut u64) -> (r: Result<
    (KernelRegistry, StringHashMap<u64>),
    CodegenError,
>)
    ensures
        *final(next) == program_kernels(*program, *old(next)).0,
        match r {
            Ok(v) => {
                &&& program_kernels(*program, *old(next)).1 == Ok::<Kernels, Fail>(
                    (Kernels { next: *final(next), sources: v.0@, names: v.1@ }),
                )
            },
            Err(e) => program_kernels(*program, *old(next)).1 == Err::<Kernels, Fail>(e@),
        },
{
    let mut registry = KernelRegistry::new();
    let mut names: StringHashMap<u64> = StringHashMap::new();
    let mut i: usize = 0;
    let ghost first = *next;
    while i < program.kernels.len()
        invariant
            i <= program.kernels.len(),
            first == *old(next),
            (Kernels { next: first, sources: Map::empty(), names: Map::empty() }).user_kernels(
                program.kernels@,
                0,
            ) == (Kernels { next: *next, sources: registry@, names: names@ }).user_kernels(
                program.kernels@,
                i as nat,
            ),
        decreases program.kernels.len() - i,
    {
        let id: u64 = *next;
        *next = id.wrapping_add(1);
        let ghost before = Kernels { next: id, sources: registry@, names: names@ };
        match lower_kernel(&program.kernels[i], id) {
            Ok(s) => {
                let ghost text = s@;
                registry.insert(id, s);
                names.insert(program.kernels[i].name.clone(), id);
                assert((Kernels { next: *next, sources: registry@, names: names@ }) =~= before.with(
                    program.kernels@[i as int].name@,
                    text,
                ));
            },
            Err(x) => {
                return Err(x);
            },
        }
        i = i + 1;
    }
    let list = builtin_list();
    let mut j: usize = 0;
    while j < list.len()
        invariant
            j <= list.len(),
            list@ == builtin_order(),
            first == *old(next),
            program_kernels(*program, first) == (Kernels {
                next: *next,
                sources: registry@,
                names: names@,
            }).builtins(program.fns@, builtin_order(), j as nat),
        decreases list.len() - j,
    {
        let b = list[j];
        let ghost before = Kernels { next: *next, sources: registry@, names: names@ };
        match b.name() {
            None => {},
            Some(name) => {
                let tensors = matches!(b, BuiltinKernel::Tensors(_));
                if b.fns_need(&program.fns) && (tensors || !names.contains_key(name)) {
                    let id: u64 = *next;
                    *next = id.wrapping_add(1);
                    match b.synthesize(id) {
                        Ok(s) => {
                            let ghost text = s@;
                            registry.insert(id, s);
                            names.insert(name.to_string(), id);
                            assert((Kernels { next: *next, sources: registry@, names: names@ })
                                =~= before.with(name@, text));
                        },
                        Err(x) => {
                            return Err(x);
                        },
                    }
                }
            },
        }
        j = j + 1;
    }
    Ok((registry, names))
}

impl Kernels {
    /// Numbers lie in a range, and every name has a source.
    pub open spec fn consistent(self, from: u64) -> bool {
        &&& from <= self.next
        &&& forall|id: u64| #[trigger]
            self.sources.contains_key(id) <==> from <= id < self.next
        &&& forall|name: Seq<char>| #[trigger]
            self.names.contains_key(name) ==> self.sources.contains_key(self.names[name])
    }
}

proof fn user_kernels_consistent(k: Kernels, from: u64, ks: Seq<TypedKernel>, i: nat)
    requires
        k.consistent(from),
        k.next + (ks.len() - i) < u64::MAX,
        i <= ks.len(),
    ensures
        k.user_kernels(ks, i).1 matches Ok(r) ==> r.consistent(from) && r.next <= k.next + (
        ks.len() - i),
    decreases ks.len() - i,
{
    if i < ks.len() {
        match kernel::kernel_source(ks[i as int], k.next) {
            Err(_) => {},
            Ok(s) => {
                let n = k.with(ks[i as int].name@, s);
                assert(n.consistent(from)) by {
                    assert forall|id: u64| #[trigger]
                        n.sources.contains_key(id) <==> from <= id < n.next by {
                        assert(k.sources.contains_key(id) <==> from <= id < k.next);
                    }
                    assert forall|name: Seq<char>| #[trigger]
                        n.names.contains_key(name) implies n.sources.contains_key(
                        n.names[name],
                    ) by {
                        if name != ks[i as int].name@ {
                            assert(k.names.contains_key(name));
                        }
                    }
                }
                user_kernels_consistent(n, from, ks, i + 1);
            },
        }
    }
}

proof fn builtins_consistent(
    k: Kernels,
    from: u64,
    fns: Seq<TypedFn>,
    bs: Seq<BuiltinKernel>,
    i: nat,
)
    requires
        k.consistent(from),
        k.next + (bs.len() - i) < u64::MAX,
        i <= bs.len(),
    ensures
        k.builtins(fns, bs, i).1 matches Ok(r) ==> r.consistent(from),
    decreases bs.len() - i,
{
    if i < bs.len() {
        let b = bs[i as int];
        match k.builtin(fns, b) {
            (_, Err(_)) => {},
            (_, Ok(n)) => {
                if n != k {
                    let name = b.text()->0;
                    assert forall|id: u64| #[trigger]
                        n.sources.contains_key(id) <==> from <= id < n.next by {
                        assert(k.sources.contains_key(id) <==> from <= id < k.next);
                    }
                    assert forall|x: Seq<char>| #[trigger]
                        n.names.contains_key(x) implies n.sources.contains_key(n.names[x]) by {
                        if x != name {
                            assert(k.names.contains_key(x));
                        }
                    }
                }
                builtins_consistent(n, from, fns, bs, i + 1);
            },
        }
    }
}

/// Kernel numbers are unique: those of a program are exactly the numbers from
/// its first to the next one, and every name has a kernel.
pub proof fn kernel_numbers_unique(p: TypedProgram, next: u64)
    requires
        next + p.kernels@.len() + builtin_order().len() < u64::MAX,
    ensures
        program_kernels(p, next).1 matches Ok(k) ==> k.consistent(next),
{
    let start = Kernels { next, sources: Map::empty(), names: Map::empty() };
    user_kernels_consistent(start, next, p.kernels@, 0);
    match start.user_kernels(p.kernels@, 0) {
        (_, Err(_)) => {},
        (_, Ok(s)) => {
            builtins_consistent(s, next, p.fns@, builtin_order(), 0);
        },
    }
}

proof fn user_kernels_advance(k: Kernels, ks: Seq<TypedKernel>, i: nat)
    requires
        k.next + (ks.len() - i) < u64::MAX,
        i <= ks.len(),
    ensures
        k.next <= k.user_kernels(ks, i).0 <= k.next + (ks.len() - i),
        k.user_kernels(ks, i).1 matches Ok(r) ==> r.next == k.user_kernels(ks, i).0,
    decreases ks.len() - i,
{
    if i < ks.len() {
        match kernel::kernel_source(ks[i as int], k.next) {
            Err(_) => {},
            Ok(s) => {
                user_kernels_advance(k.with(ks[i as int].name@, s), ks, i + 1);
            },
        }
    }
}

proof fn builtins_advance(k: Kernels, fns: Seq<TypedFn>, bs: Seq<BuiltinKernel>, i: nat)
    requires
        k.next + (bs.len() - i) < u64::MAX,
        i <= bs.len(),
    ensures
        k.next <= k.builtins(fns, bs, i).0 <= k.next + (bs.len() - i),
        k.builtins(fns, bs, i).1 matches Ok(r) ==> r.next == k.builtins(fns, bs, i).0,
    decreases bs.len() - i,
{
    if i < bs.len() {
        match k.builtin(fns, bs[i as int]) {
            (_, Err(_)) => {},
            (_, Ok(n)) => {
                builtins_advance(n, fns, bs, i + 1);
            },
        }
    }
}

/// Compiling a program moves the next number forward, past all numbers that
/// the program uses, also where it fails.
pub proof fn kernel_numbers_advance(p: TypedProgram, next: u64)
    requires
        next + p.kernels@.len() + builtin_order().len() < u64::MAX,
    ensures
        next <= program_kernels(p, next).0 <= next + p.kernels@.len() + builtin_order().len(),
        program_kernels(p, next).1 matches Ok(k) ==> k.next == program_kernels(p, next).0,
{
    let start = Kernels { next, sources: Map::empty(), names: Map::empty() };
    user_kernels_advance(start, p.kernels@, 0);
    match start.user_kernels(p.kernels@, 0) {
        (_, Err(_)) => {},
        (_, Ok(s)) => {
            builtins_advance(s, p.fns@, builtin_order(), 0);
        },
    }
}

/// Kernel numbers are never used again: where the next number is handed on, from
/// one program to another that is compiled any time after it, no number has a
/// kernel in both.
pub proof fn kernel_numbers_never_reused(p: TypedProgram, q: TypedProgram, next: u64, later: u64)
    requires
        program_kernels(p, next).0 <= later,
        next + p.kernels@.len() + builtin_order().len() < u64::MAX,
        later + q.kernels@.len() + builtin_order().len() < u64::MAX,
        program_kernels(p, next).1 is Ok,
        program_kernels(q, later).1 is Ok,
    ensures
        program_kernels(p, next).1->Ok_0.sources.dom().disjoint(
            program_kernels(q, later).1->Ok_0.sources.dom(),
        ),
{
    kernel_numbers_unique(p, next);
    kernel_numbers_unique(q, later);
    kernel_numbers_advance(p, next);
    let a = program_kernels(p, next).1->Ok_0;
    let b = program_kernels(q, later).1->Ok_0;
    assert forall|id: u64| a.sources.dom().contains(id) implies !b.sources.dom().contains(id) by {
        assert(a.sources.contains_key(id));
        if b.sources.contains_key(id) {
        }
    }
}

proof fn builtin_present(k: Kernels, fns: Seq<TypedFn>, bs: Seq<BuiltinKernel>, i: nat, j: nat)
    requires
        i <= j < bs.len(),
        bs[j as int].in_fns(fns, 0),
        bs[j as int].text() is Some,
        k.builtins(fns, bs, i).1 is Ok,
    ensures
        k.builtins(fns, bs, i).1->Ok_0.names.contains_key(bs[j as int].text()->0),
    decreases bs.len() - i,
{
    let n = k.builtin(fns, bs[i as int]).1->Ok_0;
    if i == j {
        names_stay(n, fns, bs, i + 1, bs[j as int].text()->0);
    } else {
        builtin_present(n, fns, bs, i + 1, j);
    }
}

proof fn names_stay(k: Kernels, fns: Seq<TypedFn>, bs: Seq<BuiltinKernel>, i: nat, name: Seq<char>)
    requires
        k.names.contains_key(name),
        k.builtins(fns, bs, i).1 is Ok,
    ensures
        k.builtins(fns, bs, i).1->Ok_0.names.contains_key(name),
    decreases bs.len() - i,
{
    if i < bs.len() {
        names_stay(k.builtin(fns, bs[i as int]).1->Ok_0, fns, bs, i + 1, name);
    }
}

/// Every built-in operation that is found in the functions of a program has a
/// kernel under its name.
pub proof fn found_builtins_have_kernels(p: TypedProgram, next: u64, j: nat)
    requires
        program_kernels(p, next).1 is Ok,
        j < builtin_order().len(),
        builtin_order()[j as int].in_fns(p.fns@, 0),
    ensures
        program_kernels(p, next).1->Ok_0.names.contains_key(
            builtin_order()[j as int].text()->0,
        ),
{
    let start = Kernels { next, sources: Map::empty(), names: Map::empty() };
    let s = start.user_kernels(p.kernels@, 0).1->Ok_0;
    builtin_present(s, p.fns@, builtin_order(), 0, j);
}

} // verus!
