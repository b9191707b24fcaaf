//! The check that optimizer logic is written once: gradients may be read only
//! in the single function that is generic over `Module`.

use crate::ast::{Expr, ExprKind, FnDef, Item, MatchArm, Program, Stmt, StmtKind, TypeParam};
use crate::text;
use crate::text::{decimal_of, join, push_text, same_text};
use vstd::prelude::*;

verus! {

/// A rule that a program breaks.
#[derive(Debug)]
pub struct LintViolation(pub String);

/// What is counted: reads of `.grad`, or calls of `.parameters()`.
#[derive(Clone, Copy, Debug, PartialEq, Eq, Structural)]
pub enum Sought {
    GradRead,
    ParametersCall,
}

impl Expr {
    /// Whether an expression reads a field.
    pub open spec fn reads_field(self, name: Seq<char>) -> bool {
        match self.kind {
            ExprKind::FieldAccess { field, .. } => field@ == name,
            _ => false,
        }
    }

    /// Whether an expression itself is what is sought.
    pub open spec fn is_sought(self, w: Sought) -> bool {
        match w {
            Sought::GradRead => self.reads_field("grad"@),
            Sought::ParametersCall => match self.kind {
                ExprKind::Call { callee, .. } => callee.reads_field("parameters"@),
                _ => false,
            },
        }
    }

    /// Number of expressions in an expression that are sought, on top of
    /// `acc`.
    pub open spec fn tally(self, w: Sought, acc: usize) -> usize
        decreases self, 0nat,
    {
        let n = if self.is_sought(w) {
            acc.wrapping_add(1)
        } else {
            acc
        };
        match self.kind {
            ExprKind::Lit => n,
            ExprKind::Ident(_) => n,
            ExprKind::BinOp { lhs, rhs } => rhs.tally(w, lhs.tally(w, n)),
            ExprKind::Unary { operand } => operand.tally(w, n),
            ExprKind::Call { callee, args } => tally_exprs(args@, w, 0, callee.tally(w, n)),
            ExprKind::Index { base, indices } => tally_exprs(indices@, w, 0, base.tally(w, n)),
            ExprKind::TensorLiteral { elements } => tally_exprs(elements@, w, 0, n),
            ExprKind::ArrayLiteral { elements } => tally_exprs(elements@, w, 0, n),
            ExprKind::FieldAccess { base, .. } => base.tally(w, n),
            ExprKind::Tuple(elements) => tally_exprs(elements@, w, 0, n),
            ExprKind::TupleIndex { base, .. } => base.tally(w, n),
            ExprKind::KernelLaunch { config, args } => tally_exprs(
                args@,
                w,
                0,
                tally_exprs(config@, w, 0, n),
            ),
        }
    }
}

pub open spec fn tally_exprs(es: Seq<Expr>, w: Sought, i: nat, acc: usize) -> usize
    decreases es, es.len() - i,
{
    if i >= es.len() {
        acc
    } else {
        tally_exprs(es, w, i + 1, es[i as int].tally(w, acc))
    }
}

impl Stmt {
    /// Number of expressions in a statement that are sought, on top of `acc`.
    pub open spec fn tally(self, w: Sought, acc: usize) -> usize
        decreases self, 0nat,
    {
        match self.kind {
            StmtKind::Let { expr } => expr.tally(w, acc),
            StmtKind::LetMut { expr } => expr.tally(w, acc),
            StmtKind::LetTuple { expr } => expr.tally(w, acc),
            StmtKind::Assign { target, expr } => expr.tally(w, target.tally(w, acc)),
            StmtKind::Return { expr } => expr.tally(w, acc),
            StmtKind::Expr(expr) => expr.tally(w, acc),
            StmtKind::If { condition, then_body, else_body } => {
                let n = tally_body(then_body@, w, 0, condition.tally(w, acc));
                match else_body {
                    Some(b) => tally_body(b@, w, 0, n),
                    None => n,
                }
            },
            StmtKind::For { start, end, body } => tally_body(
                body@,
                w,
                0,
                end.tally(w, start.tally(w, acc)),
            ),
            StmtKind::ForIn { iter, body } => tally_body(body@, w, 0, iter.tally(w, acc)),
            StmtKind::While { condition, body } => tally_body(
                body@,
                w,
                0,
                condition.tally(w, acc),
            ),
            StmtKind::Match { scrutinee, arms } => tally_arms(
                arms@,
                w,
                0,
                scrutinee.tally(w, acc),
            ),
            StmtKind::NoGrad { body } => tally_body(body@, w, 0, acc),
            StmtKind::Break => acc,
            StmtKind::Continue => acc,
            StmtKind::LetShared => acc,
        }
    }
}

pub open spec fn tally_body(body: Seq<Stmt>, w: Sought, i: nat, acc: usize) -> usize
    decreases body, body.len() - i,
{
    if i >= body.len() {
        acc
    } else {
        tally_body(body, w, i + 1, body[i as int].tally(w, acc))
    }
}

pub open spec fn tally_arms(arms: Seq<MatchArm>, w: Sought, i: nat, acc: usize) -> usize
    decreases arms, arms.len() - i,
{
    if i >= arms.len() {
        acc
    } else {
        tally_arms(arms, w, i + 1, tally_body(arms[i as int].body@, w, 0, acc))
    }
}

fn is_field(e: &Expr, name: &str) -> (r: bool)
    ensures
        r == e.reads_field(name@),
{
    match &e.kind {
        ExprKind::FieldAccess { field, .. } => same_text(field.as_str(), name),
        _ => false,
    }
}

fn expr_sought(e: &Expr, w: Sought) -> (r: bool)
    ensures
        r == e.is_sought(w),
{
    match w {
        Sought::GradRead => is_field(e, "grad"),
        Sought::ParametersCall => match &e.kind {
            ExprKind::Call { callee, .. } => is_field(callee, "parameters"),
            _ => false,
        },
    }
}

fn walk_expr(e: &Expr, w: Sought, acc: usize) -> (r: usize)
    ensures
        r == e.tally(w, acc),
    decreases e, 0nat,
{
    let n: usize = if expr_sought(e, w) {
        acc.wrapping_add(1)
    } else {
        acc
    };
    match &e.kind {
        ExprKind::Lit => n,
        ExprKind::Ident(_) => n,
        ExprKind::BinOp { lhs, rhs } => {
            let m: usize = walk_expr(lhs, w, n);
            walk_expr(rhs, w, m)
        },
        ExprKind::Unary { operand } => walk_expr(operand, w, n),
        ExprKind::Call { callee, args } => {
            let m: usize = walk_expr(callee, w, n);
            walk_exprs(args, w, m)
        },
        ExprKind::Index { base, indices } => {
            let m: usize = walk_expr(base, w, n);
            walk_exprs(indices, w, m)
        },
        ExprKind::TensorLiteral { elements } => walk_exprs(elements, w, n),
        ExprKind::ArrayLiteral { elements } => walk_exprs(elements, w, n),
        ExprKind::FieldAccess { base, .. } => walk_expr(base, w, n),
        ExprKind::Tuple(elements) => walk_exprs(elements, w, n),
        ExprKind::TupleIndex { base, .. } => walk_expr(base, w, n),
        ExprKind::KernelLaunch { config, args } => {
            let m: usize = walk_exprs(config, w, n);
            walk_exprs(args, w, m)
        },
    }
}

fn walk_exprs(es: &Vec<Expr>, w: Sought, acc: usize) -> (r: usize)
    ensures
        r == tally_exprs(es@, w, 0, acc),
    decreases es, es.len(),
{
    let mut n: usize = acc;
    let mut i: usize = 0;
    while i < es.len()
        invariant
            i <= es.len(),
            tally_exprs(es@, w, 0, acc) == tally_exprs(es@, w, i as nat, n),
        decreases es.len() - i,
    {
        n = walk_expr(&es[i], w, n);
        i = i + 1;
    }
    n
}

fn walk_stmt(s: &Stmt, w: Sought, acc: usize) -> (r: usize)
    ensures
        r == s.tally(w, acc),
    decreases s, 0nat,
{
    match &s.kind {
        StmtKind::Let { expr } => walk_expr(expr, w, acc),
        StmtKind::LetMut { expr } => walk_expr(expr, w, acc),
        StmtKind::LetTuple { expr } => walk_expr(expr, w, acc),
        StmtKind::Assign { target, expr } => {
            let n: usize = walk_expr(target, w, acc);
            walk_expr(expr, w, n)
        },
        StmtKind::Return { expr } => walk_expr(expr, w, acc),
        StmtKind::Expr(expr) => walk_expr(expr, w, acc),
        StmtKind::If { condition, then_body, else_body } => {
            let c: usize = walk_expr(condition, w, acc);
            let n: usize = walk_body(then_body, w, c);
            match else_body {
                Some(b) => walk_body(b, w, n),
                None => n,
            }
        },
        StmtKind::For { start, end, body } => {
            let a: usize = walk_expr(start, w, acc);
            let b: usize = walk_expr(end, w, a);
            walk_body(body, w, b)
        },
        StmtKind::ForIn { iter, body } => {
            let n: usize = walk_expr(iter, w, acc);
            walk_body(body, w, n)
        },
        StmtKind::While { condition, body } => {
            let n: usize = walk_expr(condition, w, acc);
            walk_body(body, w, n)
        },
        StmtKind::Match { scrutinee, arms } => {
            let n: usize = walk_expr(scrutinee, w, acc);
            walk_arms(arms, w, n)
        },
        StmtKind::NoGrad { body } => walk_body(body, w, acc),
        StmtKind::Break => acc,
        StmtKind::Continue => acc,
        StmtKind::LetShared => acc,
    }
}

fn walk_body(body: &Vec<Stmt>, w: Sought, acc: usize) -> (r: usize)
    ensures
        r == tally_body(body@, w, 0, acc),
    decreases body, body.len(),
{
    let mut n: usize = acc;
    let mut i: usize = 0;
    while i < body.len()
        invariant
            i <= body.len(),
            tally_body(body@, w, 0, acc) == tally_body(body@, w, i as nat, n),
        decreases body.len() - i,
    {
        n = walk_stmt(&body[i], w, n);
        i = i + 1;
    }
    n
}

fn walk_arms(arms: &Vec<MatchArm>, w: Sought, acc: usize) -> (r: usize)
    ensures
        r == tally_arms(arms@, w, 0, acc),
    decreases arms, arms.len(),
{
    let mut n: usize = acc;
    let mut i: usize = 0;
    while i < arms.len()
        invariant
            i <= arms.len(),
            tally_arms(arms@, w, 0, acc) == tally_arms(arms@, w, i as nat, n),
        decreases arms.len() - i,
    {
        n = walk_body(&arms[i].body, w, n);
        i = i + 1;
    }
    n
}

impl TypeParam {
    pub open spec fn is_module(self) -> bool {
        match self.bound {
            Some(b) => b@ == "Module"@,
            None => false,
        }
    }
}

impl FnDef {
    /// Whether a function is generic over `Module`.
    pub open spec fn over_module(self) -> bool {
        exists|i: int| 0 <= i < self.type_params@.len() && (#[trigger] self.type_params@[i]).is_module()
    }

    /// Number of gradient reads in a function.
    pub open spec fn grad_reads(self) -> usize {
        tally_body(self.body@, Sought::GradRead, 0, 0)
    }

    fn is_over_module(&self) -> (r: bool)
        ensures
            r == self.over_module(),
    {
        let mut i: usize = 0;
        while i < self.type_params.len()
            invariant
                i <= self.type_params.len(),
                forall|j: int| 0 <= j < i ==> !(#[trigger] self.type_params@[j]).is_module(),
            decreases self.type_params.len() - i,
        {
            let module = match &self.type_params[i].bound {
                Some(b) => same_text(b.as_str(), "Module"),
                None => false,
            };
            if module {
                assert(self.type_params@[i as int].is_module());
                return true;
            }
            i = i + 1;
        }
        false
    }
}

/// Names of the functions generic over `Module` among the first `n` items.
pub open spec fn module_fns(items: Seq<Item>, n: nat) -> Seq<Seq<char>>
    decreases n,
{
    if n == 0 {
        Seq::empty()
    } else {
        let rest = module_fns(items, (n - 1) as nat);
        match items[n - 1] {
            Item::Fn(f) => if f.over_module() {
                rest.push(f.name@)
            } else {
                rest
            },
            _ => rest,
        }
    }
}

/// Names in quotes.
pub open spec fn quoted(names: Seq<Seq<char>>) -> Seq<Seq<char>> {
    names.map_values(|n: Seq<char>| text::quoted(n))
}

/// The violation for a number of generic functions other than one.
pub open spec fn count_violation(names: Seq<Seq<char>>) -> Seq<Seq<char>> {
    if names.len() == 1 {
        Seq::empty()
    } else {
        seq![
            "expected exactly one `fn` generic over `Module`, found "@ + text::decimal(
                names.len(),
            ) + ": ["@ + text::joined(quoted(names), ", "@, names.len()) + "]"@,
        ]
    }
}

/// The violation for a function that reads gradients and is not the
/// optimizer.
pub open spec fn fn_violation(f: FnDef, optimizer: Option<Seq<char>>) -> Seq<Seq<char>> {
    if f.grad_reads() > 0 && Some(f.name@) != optimizer {
        seq![
            "fn '"@ + f.name@ + "' reads `.grad` "@ + text::decimal(f.grad_reads() as nat)
                + " time(s) — hand-unrolled optimizer logic may only live in the fn generic over `Module`"@,
        ]
    } else {
        Seq::empty()
    }
}

/// The violations of the methods of a type from position `i` on.
pub open spec fn method_violations(ty: Seq<char>, ms: Seq<FnDef>, i: nat) -> Seq<Seq<char>>
    decreases ms.len() - i,
{
    if i >= ms.len() {
        Seq::empty()
    } else {
        let rest = method_violations(ty, ms, i + 1);
        let m = ms[i as int];
        if m.grad_reads() > 0 {
            seq![
                "impl method '"@ + ty + "::"@ + m.name@ + "' reads `.grad` "@ + text::decimal(
                    m.grad_reads() as nat,
                )
                    + " time(s) — hand-unrolled optimizer logic may only live in the fn generic over `Module`"@,
            ] + rest
        } else {
            rest
        }
    }
}

/// The violations of the items from position `i` on.
pub open spec fn read_violations(items: Seq<Item>, optimizer: Option<Seq<char>>, i: nat) -> Seq<
    Seq<char>,
>
    decreases items.len() - i,
{
    if i >= items.len() {
        Seq::empty()
    } else {
        let rest = read_violations(items, optimizer, i + 1);
        match items[i as int] {
            Item::Fn(f) => fn_violation(f, optimizer) + rest,
            Item::Impl { for_type, methods } => method_violations(for_type@, methods@, 0) + rest,
            _ => rest,
        }
    }
}

/// The body of the first function with a name, from item `i` on.
pub open spec fn body_of(items: Seq<Item>, name: Seq<char>, i: nat) -> Option<Seq<Stmt>>
    decreases items.len() - i,
{
    if i >= items.len() {
        None
    } else {
        match items[i as int] {
            Item::Fn(f) => if f.name@ == name {
                Some(f.body@)
            } else {
                body_of(items, name, i + 1)
            },
            _ => body_of(items, name, i + 1),
        }
    }
}

/// The violation for a number of `.parameters()` calls other than one.
pub open spec fn call_violation(items: Seq<Item>, optimizer: Option<Seq<char>>) -> Seq<Seq<char>> {
    match optimizer {
        None => Seq::empty(),
        Some(name) => match body_of(items, name, 0) {
            None => Seq::empty(),
            Some(body) => {
                let n = tally_body(body, Sought::ParametersCall, 0, 0);
                if n == 1 {
                    Seq::empty()
                } else {
                    seq![
                        "expected exactly one `.parameters()` call inside '"@ + name
                            + "', found "@ + text::decimal(n as nat),
                    ]
                }
            },
        },
    }
}

/// All violations of a program, in order: the number of generic functions,
/// gradient reads, and calls of `.parameters()`.
pub open spec fn violations(p: Program) -> Seq<Seq<char>> {
    let names = module_fns(p.items@, p.items@.len());
    let optimizer = if names.len() > 0 {
        Some(names[0])
    } else {
        None
    };
    count_violation(names) + read_violations(p.items@, optimizer, 0) + call_violation(
        p.items@,
        optimizer,
    )
}

/// The texts of a list of violations.
pub open spec fn messages(v: Seq<LintViolation>) -> Seq<Seq<char>> {
    v.map_values(|x: LintViolation| x.0@)
}

fn report(out: &mut Vec<LintViolation>, t: String)
    ensures
        messages(final(out)@) == messages(old(out)@).push(t@),
{
    let ghost before = out@;
    let v = LintViolation(t);
    out.push(v);
    assert(messages(before.push(v)) =~= messages(before).push(t@));
}

fn module_fn_names(items: &Vec<Item>) -> (r: Vec<String>)
    ensures
        text::texts(r@) == module_fns(items@, items@.len()),
{
    let mut out: Vec<String> = Vec::new();
    let mut i: usize = 0;
    assert(text::texts(out@) =~= Seq::<Seq<char>>::empty());
    while i < items.len()
        invariant
            i <= items.len(),
            text::texts(out@) == module_fns(items@, i as nat),
        decreases items.len() - i,
    {
        match &items[i] {
            Item::Fn(f) => {
                if f.is_over_module() {
                    push_text(&mut out, f.name.clone());
                }
            },
            _ => {},
        }
        i = i + 1;
    }
    out
}

fn quote_all(names: &Vec<String>) -> (r: Vec<String>)
    ensures
        text::texts(r@) == quoted(text::texts(names@)),
        r.len() == names.len(),
{
    let mut out: Vec<String> = Vec::new();
    let mut i: usize = 0;
    while i < names.len()
        invariant
            i <= names.len(),
            out.len() == i,
            forall|j: int| 0 <= j < i ==> (#[trigger] out@[j])@ == text::quoted(names@[j]@),
        decreases names.len() - i,
    {
        out.push(text::quote(names[i].as_str()));
        i = i + 1;
    }
    assert(text::texts(out@) =~= quoted(text::texts(names@)));
    out
}

fn check_methods(ty: &str, ms: &Vec<FnDef>, out: &mut Vec<LintViolation>)
    ensures
        messages(final(out)@) == messages(old(out)@) + method_violations(ty@, ms@, 0),
{
    let mut i: usize = 0;
    assert(messages(out@) + method_violations(ty@, ms@, 0) =~= messages(old(out)@)
        + method_violations(ty@, ms@, 0));
    while i < ms.len()
        invariant
            i <= ms.len(),
            messages(old(out)@) + method_violations(ty@, ms@, 0) == messages(out@)
                + method_violations(ty@, ms@, i as nat),
        decreases ms.len() - i,
    {
        let n: usize = walk_body(&ms[i].body, Sought::GradRead, 0);
        let ghost before = messages(out@);
        let ghost rest = method_violations(ty@, ms@, (i + 1) as nat);
        if n > 0 {
            let t = "impl method '".to_string().concat(ty).concat("::").concat(
                ms[i].name.as_str(),
            ).concat("' reads `.grad` ").concat(decimal_of(n as u64).as_str()).concat(
                " time(s) — hand-unrolled optimizer logic may only live in the fn generic over `Module`",
            );
            report(out, t);
            assert(before + (seq![t@] + rest) =~= messages(out@) + rest);
        }
        i = i + 1;
    }
    assert(messages(out@) + Seq::<Seq<char>>::empty() =~= messages(out@));
}

/// Checks that optimizer logic is written once. Returns a violation for each
/// broken rule.
pub fn check_no_unroll(program: &Program) -> (r: Vec<LintViolation>)
    ensures
        messages(r@) == violations(*program),
{
    let items = &program.items;
    let mut out: Vec<LintViolation> = Vec::new();
    let names = module_fn_names(items);
    let ghost ns = text::texts(names@);
    assert(ns.len() == names.len());
    assert(messages(out@) =~= Seq::<Seq<char>>::empty());
    if names.len() != 1 {
        let list = quote_all(&names);
        let t = "expected exactly one `fn` generic over `Module`, found ".to_string().concat(
            decimal_of(names.len() as u64).as_str(),
        ).concat(": [").concat(join(&list, ", ").as_str()).concat("]");
        report(&mut out, t);
    }
    assert(messages(out@) =~= count_violation(ns));
    let optimizer: Option<&String> = if names.len() > 0 {
        Some(&names[0])
    } else {
        None
    };
    let ghost opt: Option<Seq<char>> = if ns.len() > 0 {
        Some(ns[0])
    } else {
        None
    };
    let ghost reads = read_violations(items@, opt, 0);
    let mut i: usize = 0;
    while i < items.len()
        invariant
            i <= items.len(),
            match optimizer {
                Some(s) => opt == Some(s@),
                None => opt is None,
            },
            reads == read_violations(items@, opt, 0),
            count_violation(ns) + reads == messages(out@) + read_violations(
                items@,
                opt,
                i as nat,
            ),
        decreases items.len() - i,
    {
        let ghost before = messages(out@);
        let ghost rest = read_violations(items@, opt, (i + 1) as nat);
        match &items[i] {
            Item::Fn(f) => {
                let n: usize = walk_body(&f.body, Sought::GradRead, 0);
                let is_optimizer = match optimizer {
                    Some(s) => same_text(s.as_str(), f.name.as_str()),
                    None => false,
                };
                if n > 0 && !is_optimizer {
                    let t = "fn '".to_string().concat(f.name.as_str()).concat(
                        "' reads `.grad` ",
                    ).concat(decimal_of(n as u64).as_str()).concat(
                        " time(s) — hand-unrolled optimizer logic may only live in the fn generic over `Module`",
                    );
                    report(&mut out, t);
                    assert(before + (seq![t@] + rest) =~= messages(out@) + rest);
                } else {
                    assert(before + (Seq::<Seq<char>>::empty() + rest) =~= messages(out@) + rest);
                }
            },
            Item::Impl { for_type, methods } => {
                check_methods(for_type.as_str(), methods, &mut out);
                proof {
                    let ms = method_violations(for_type@, methods@, 0);
                    assert(before + (ms + rest) =~= messages(out@) + rest);
                }
            },
            _ => {},
        }
        i = i + 1;
    }
    assert(messages(out@) + Seq::<Seq<char>>::empty() =~= messages(out@));
    match optimizer {
        None => {},
        Some(name) => {
            let mut j: usize = 0;
            while j < items.len()
                invariant
                    j <= items.len(),
                    opt == Some(name@),
                    body_of(items@, name@, 0) == body_of(items@, name@, j as nat),
                    messages(out@) == count_violation(ns) + reads,
                    items@ == program.items@,
                    ns == module_fns(items@, items@.len()),
                    ns.len() > 0,
                    opt == Some(ns[0]),
                    reads == read_violations(items@, opt, 0),
                decreases items.len() - j,
            {
                match &items[j] {
                    Item::Fn(f) => {
                        if same_text(f.name.as_str(), name.as_str()) {
                            let n: usize = walk_body(&f.body, Sought::ParametersCall, 0);
                            if n != 1 {
                                let t =
                                    "expected exactly one `.parameters()` call inside '".to_string().concat(
                                    name.as_str(),
                                ).concat("', found ").concat(decimal_of(n as u64).as_str());
                                report(&mut out, t);
                            }
                            assert(messages(out@) =~= violations(*program));
                            return out;
                        }
                    },
                    _ => {},
                }
                j = j + 1;
            }
        },
    }
    assert(messages(out@) =~= violations(*program));
    out
}

proof fn no_reads(items: Seq<Item>, optimizer: Option<Seq<char>>, i: nat, k: int)
    requires
        read_violations(items, optimizer, i).len() == 0,
        i <= k < items.len(),
        items[k] is Fn,
    ensures
        fn_violation(items[k]->Fn_0, optimizer).len() == 0,
    decreases items.len() - i,
{
    if i < k {
        no_reads(items, optimizer, i + 1, k);
    }
}

/// In a program without violations exactly one function is generic over
/// `Module`, and no other function reads gradients.
pub proof fn clean_programs_read_once(p: Program, k: int)
    requires
        violations(p).len() == 0,
        0 <= k < p.items@.len(),
        p.items@[k] is Fn,
    ensures
        module_fns(p.items@, p.items@.len()).len() == 1,
        p.items@[k]->Fn_0.grad_reads() > 0 ==> p.items@[k]->Fn_0.name@ == module_fns(
            p.items@,
            p.items@.len(),
        )[0],
{
    let names = module_fns(p.items@, p.items@.len());
    let optimizer = if names.len() > 0 {
        Some(names[0])
    } else {
        None
    };
    assert(count_violation(names).len() == 0);
    assert(read_violations(p.items@, optimizer, 0).len() == 0);
    no_reads(p.items@, optimizer, 0, k);
}

} // verus!
