//! How parts of a program stand in diagnostics: which variant an expression or
//! a statement is, and a place of an assignment in full.

use crate::text;
use crate::text::{decimal_of, signed_decimal_of};
use crate::typed::{
    Lit, ResolvedTy, ScalarTy, TypedAssignTarget, TypedExpr, TypedExprKind, TypedStmt, UnaryOp,
};
use vstd::prelude::*;

verus! {

impl TypedExprKind {
    /// Position of the variant among those of expressions.
    pub open spec fn ordinal(self) -> nat {
        match self {
            TypedExprKind::Lit(_) => 0,
            TypedExprKind::Ident(_) => 1,
            TypedExprKind::BinOp { .. } => 2,
            TypedExprKind::Unary { .. } => 3,
            TypedExprKind::Call { .. } => 4,
            TypedExprKind::KernelCall { .. } => 5,
            TypedExprKind::TensorLiteral { .. } => 6,
            TypedExprKind::Index { .. } => 7,
            TypedExprKind::ArrayLiteral { .. } => 8,
            TypedExprKind::FieldAccess { .. } => 9,
            TypedExprKind::StructInit { .. } => 10,
            TypedExprKind::EnumInit { .. } => 11,
            TypedExprKind::TupleInit { .. } => 12,
            TypedExprKind::TupleIndex { .. } => 13,
            TypedExprKind::KernelLaunch { .. } => 14,
        }
    }

    /// The variant, as a number.
    pub open spec fn variant_debug(self) -> Seq<char> {
        "Discriminant("@ + text::decimal(self.ordinal()) + ")"@
    }

    pub fn variant_debug_text(&self) -> (r: String)
        ensures
            r@ == self.variant_debug(),
    {
        let n: u64 = match self {
            TypedExprKind::Lit(_) => 0,
            TypedExprKind::Ident(_) => 1,
            TypedExprKind::BinOp { .. } => 2,
            TypedExprKind::Unary { .. } => 3,
            TypedExprKind::Call { .. } => 4,
            TypedExprKind::KernelCall { .. } => 5,
            TypedExprKind::TensorLiteral { .. } => 6,
            TypedExprKind::Index { .. } => 7,
            TypedExprKind::ArrayLiteral { .. } => 8,
            TypedExprKind::FieldAccess { .. } => 9,
            TypedExprKind::StructInit { .. } => 10,
            TypedExprKind::EnumInit { .. } => 11,
            TypedExprKind::TupleInit { .. } => 12,
            TypedExprKind::TupleIndex { .. } => 13,
            TypedExprKind::KernelLaunch { .. } => 14,
        };
        "Discriminant(".to_string().concat(decimal_of(n).as_str()).concat(")")
    }
}

impl TypedStmt {
    /// Position of the variant among those of statements.
    pub open spec fn ordinal(self) -> nat {
        match self {
            TypedStmt::Let { .. } => 0,
            TypedStmt::LetTuple { .. } => 1,
            TypedStmt::LetShared { .. } => 2,
            TypedStmt::Assign { .. } => 3,
            TypedStmt::Return { .. } => 4,
            TypedStmt::Expr(_) => 5,
            TypedStmt::If { .. } => 6,
            TypedStmt::For { .. } => 7,
            TypedStmt::While { .. } => 8,
            TypedStmt::ForIn { .. } => 9,
            TypedStmt::Break => 10,
            TypedStmt::Continue => 11,
            TypedStmt::Match { .. } => 12,
            TypedStmt::NoGrad { .. } => 13,
            TypedStmt::GpuBarrier => 14,
            TypedStmt::Drop { .. } => 15,
            TypedStmt::Retain { .. } => 16,
            TypedStmt::Release { .. } => 17,
            TypedStmt::RetainAgg { .. } => 18,
            TypedStmt::ReleaseAgg { .. } => 19,
            TypedStmt::DropStruct { .. } => 20,
            TypedStmt::DropEnum { .. } => 21,
            TypedStmt::DropArray { .. } => 22,
            TypedStmt::DropList { .. } => 23,
            TypedStmt::DropTuple { .. } => 24,
            TypedStmt::DropBuffer { .. } => 25,
        }
    }

    /// The variant, as a number.
    pub open spec fn variant_debug(self) -> Seq<char> {
        "Discriminant("@ + text::decimal(self.ordinal()) + ")"@
    }

    pub fn variant_debug_text(&self) -> (r: String)
        ensures
            r@ == self.variant_debug(),
    {
        let n: u64 = match self {
            TypedStmt::Let { .. } => 0,
            TypedStmt::LetTuple { .. } => 1,
            TypedStmt::LetShared { .. } => 2,
            TypedStmt::Assign { .. } => 3,
            TypedStmt::Return { .. } => 4,
            TypedStmt::Expr(_) => 5,
            TypedStmt::If { .. } => 6,
            TypedStmt::For { .. } => 7,
            TypedStmt::While { .. } => 8,
            TypedStmt::ForIn { .. } => 9,
            TypedStmt::Break => 10,
            TypedStmt::Continue => 11,
            TypedStmt::Match { .. } => 12,
            TypedStmt::NoGrad { .. } => 13,
            TypedStmt::GpuBarrier => 14,
            TypedStmt::Drop { .. } => 15,
            TypedStmt::Retain { .. } => 16,
            TypedStmt::Release { .. } => 17,
            TypedStmt::RetainAgg { .. } => 18,
            TypedStmt::ReleaseAgg { .. } => 19,
            TypedStmt::DropStruct { .. } => 20,
            TypedStmt::DropEnum { .. } => 21,
            TypedStmt::DropArray { .. } => 22,
            TypedStmt::DropList { .. } => 23,
            TypedStmt::DropTuple { .. } => 24,
            TypedStmt::DropBuffer { .. } => 25,
        };
        "Discriminant(".to_string().concat(decimal_of(n).as_str()).concat(")")
    }
}

impl ScalarTy {
    /// Name of the variant.
    pub open spec fn variant_text(self) -> Seq<char> {
        match self {
            ScalarTy::F32 => "F32"@,
            ScalarTy::F16 => "F16"@,
            ScalarTy::Bf16 => "Bf16"@,
            ScalarTy::I8 => "I8"@,
            ScalarTy::I16 => "I16"@,
            ScalarTy::I32 => "I32"@,
            ScalarTy::I64 => "I64"@,
            ScalarTy::U8 => "U8"@,
            ScalarTy::U16 => "U16"@,
            ScalarTy::U32 => "U32"@,
            ScalarTy::U64 => "U64"@,
        }
    }

    fn variant_name(self) -> (r: &'static str)
        ensures
            r@ == self.variant_text(),
    {
        match self {
            ScalarTy::F32 => "F32",
            ScalarTy::F16 => "F16",
            ScalarTy::Bf16 => "Bf16",
            ScalarTy::I8 => "I8",
            ScalarTy::I16 => "I16",
            ScalarTy::I32 => "I32",
            ScalarTy::I64 => "I64",
            ScalarTy::U8 => "U8",
            ScalarTy::U16 => "U16",
            ScalarTy::U32 => "U32",
            ScalarTy::U64 => "U64",
        }
    }
}

pub open spec fn unary_text(op: UnaryOp) -> Seq<char> {
    match op {
        UnaryOp::Neg => "Neg"@,
        UnaryOp::Not => "Not"@,
    }
}

fn unary_name(op: UnaryOp) -> (r: &'static str)
    ensures
        r@ == unary_text(op),
{
    match op {
        UnaryOp::Neg => "Neg",
        UnaryOp::Not => "Not",
    }
}

pub open spec fn truth_text(b: bool) -> Seq<char> {
    if b {
        "true"@
    } else {
        "false"@
    }
}

fn truth(b: bool) -> (r: &'static str)
    ensures
        r@ == truth_text(b),
{
    if b {
        "true"
    } else {
        "false"
    }
}

impl Lit {
    /// A literal in full.
    pub open spec fn debug(self) -> Seq<char>
    {
        match self {
            Lit::Int(n) => "Int("@ + text::signed_decimal(n as int) + ")"@,
            Lit::Float(f) => "Float("@ + f.text@ + ")"@,
            Lit::Bool(b) => "Bool("@ + truth_text(b) + ")"@,
            Lit::Str(s0) => "Str("@ + text::quoted(s0@) + ")"@,
        }
    }

    pub fn debug_text(&self) -> (r: String)
        ensures
            r@ == self.debug(),
    {
        match self {
            Lit::Int(n) => {
                let mut s = "Int(".to_string();
                s.append(signed_decimal_of(*n).as_str());
                s.append(")");
                s
            },
            Lit::Float(f) => {
                let mut s = "Float(".to_string();
                s.append(f.text.as_str());
                s.append(")");
                s
            },
            Lit::Bool(b) => {
                let mut s = "Bool(".to_string();
                s.append(truth(*b));
                s.append(")");
                s
            },
            Lit::Str(s0) => {
                let mut s = "Str(".to_string();
                s.append(text::quote(s0.as_str()).as_str());
                s.append(")");
                s
            },
        }
    }
}

impl ResolvedTy {
    /// A type in full.
    pub open spec fn debug(self) -> Seq<char>
        decreases self, 0nat,
    {
        match self {
            ResolvedTy::Tensor { dtype } => "Tensor { dtype: "@ + dtype.variant_text() + " }"@,
            ResolvedTy::Scalar(dtype) => "Scalar("@ + dtype.variant_text() + ")"@,
            ResolvedTy::Bool => "Bool"@,
            ResolvedTy::Unit => "Unit"@,
            ResolvedTy::Str => "Str"@,
            ResolvedTy::Tuple(elems) => "Tuple(["@ + types_debug(elems@, elems@.len()) + "])"@,
            ResolvedTy::Struct { name, fields } => "Struct { name: "@ + text::quoted(name@)
                + ", fields: ["@ + fields_debug(fields@, fields@.len()) + "] }"@,
            ResolvedTy::Enum { name, variants } => "Enum { name: "@ + text::quoted(name@)
                + ", variants: ["@ + variants_debug(variants@, variants@.len()) + "] }"@,
            ResolvedTy::Array { elem, len } => "Array { elem: "@ + elem.debug() + ", len: "@
                + text::decimal(len as nat) + " }"@,
            ResolvedTy::Buffer { dtype } => "Buffer { dtype: "@ + dtype.variant_text() + " }"@,
            ResolvedTy::List { elem } => "List { elem: "@ + elem.debug() + " }"@,
        }
    }

    pub fn debug_text(&self) -> (r: String)
        ensures
            r@ == self.debug(),
        decreases self, 0nat,
    {
        match self {
            ResolvedTy::Tensor { dtype } => {
                let mut s = "Tensor { dtype: ".to_string();
                s.append(dtype.variant_name());
                s.append(" }");
                s
            },
            ResolvedTy::Scalar(dtype) => {
                let mut s = "Scalar(".to_string();
                s.append(dtype.variant_name());
                s.append(")");
                s
            },
            ResolvedTy::Bool => "Bool".to_string(),
            ResolvedTy::Unit => "Unit".to_string(),
            ResolvedTy::Str => "Str".to_string(),
            ResolvedTy::Tuple(elems) => {
                let mut s = "Tuple([".to_string();
                s.append(types_debug_of(elems).as_str());
                s.append("])");
                s
            },
            ResolvedTy::Struct { name, fields } => {
                let mut s = "Struct { name: ".to_string();
                s.append(text::quote(name.as_str()).as_str());
                s.append(", fields: [");
                s.append(fields_debug_of(fields).as_str());
                s.append("] }");
                s
            },
            ResolvedTy::Enum { name, variants } => {
                let mut s = "Enum { name: ".to_string();
                s.append(text::quote(name.as_str()).as_str());
                s.append(", variants: [");
                s.append(variants_debug_of(variants).as_str());
                s.append("] }");
                s
            },
            ResolvedTy::Array { elem, len } => {
                let mut s = "Array { elem: ".to_string();
                s.append(elem.debug_text().as_str());
                s.append(", len: ");
                s.append(decimal_of(*len as u64).as_str());
                s.append(" }");
                s
            },
            ResolvedTy::Buffer { dtype } => {
                let mut s = "Buffer { dtype: ".to_string();
                s.append(dtype.variant_name());
                s.append(" }");
                s
            },
            ResolvedTy::List { elem } => {
                let mut s = "List { elem: ".to_string();
                s.append(elem.debug_text().as_str());
                s.append(" }");
                s
            },
        }
    }
}

/// The first `n` types, separated by commas.
pub open spec fn types_debug(list: Seq<ResolvedTy>, n: nat) -> Seq<char>
    decreases list, n,
{
    if n == 0 || n > list.len() {
        Seq::empty()
    } else if n == 1 {
        list[0].debug()
    } else {
        types_debug(list, (n - 1) as nat) + ", "@ + (list[n - 1].debug())
    }
}

fn types_debug_of(list: &Vec<ResolvedTy>) -> (r: String)
    ensures
        r@ == types_debug(list@, list@.len()),
    decreases list, list@.len(),
{
    let mut out = String::new();
    let mut i: usize = 0;
    while i < list.len()
        invariant
            i <= list.len(),
            out@ == types_debug(list@, i as nat),
        decreases list.len() - i,
    {
        let part = list[i].debug_text();
        if i > 0 {
            out.append(", ");
        }
        out.append(part.as_str());
        proof {
            if i == 0 {
                assert(out@ =~= part@);
            }
        }
        i = i + 1;
    }
    out
}

/// The first `n` fields, separated by commas.
pub open spec fn fields_debug(list: Seq<(String, ResolvedTy)>, n: nat) -> Seq<char>
    decreases list, n,
{
    if n == 0 || n > list.len() {
        Seq::empty()
    } else if n == 1 {
        "("@ + text::quoted(list[0].0@) + ", "@ + list[0].1.debug() + ")"@
    } else {
        fields_debug(list, (n - 1) as nat) + ", "@ + ("("@ + text::quoted(list[n - 1].0@) + ", "@
            + list[n - 1].1.debug() + ")"@)
    }
}

fn fields_debug_of(list: &Vec<(String, ResolvedTy)>) -> (r: String)
    ensures
        r@ == fields_debug(list@, list@.len()),
    decreases list, list@.len(),
{
    let mut out = String::new();
    let mut i: usize = 0;
    while i < list.len()
        invariant
            i <= list.len(),
            out@ == fields_debug(list@, i as nat),
        decreases list.len() - i,
    {
        let mut part = "(".to_string();
        part.append(text::quote(list[i].0.as_str()).as_str());
        part.append(", ");
        part.append(list[i].1.debug_text().as_str());
        part.append(")");
        if i > 0 {
            out.append(", ");
        }
        out.append(part.as_str());
        proof {
            if i == 0 {
                assert(out@ =~= part@);
            }
        }
        i = i + 1;
    }
    out
}

/// The first `n` variants, separated by commas.
pub open spec fn variants_debug(list: Seq<(String, Vec<(String, ResolvedTy)>)>, n: nat) -> Seq<char>
    decreases list, n,
{
    if n == 0 || n > list.len() {
        Seq::empty()
    } else if n == 1 {
        "("@ + text::quoted(list[0].0@) + ", ["@ + fields_debug(list[0].1@, list[0].1@.len())
            + "])"@
    } else {
        variants_debug(list, (n - 1) as nat) + ", "@ + ("("@ + text::quoted(list[n - 1].0@)
            + ", ["@ + fields_debug(list[n - 1].1@, list[n - 1].1@.len()) + "])"@)
    }
}

fn variants_debug_of(list: &Vec<(String, Vec<(String, ResolvedTy)>)>) -> (r: String)
    ensures
        r@ == variants_debug(list@, list@.len()),
    decreases list, list@.len(),
{
    let mut out = String::new();
    let mut i: usize = 0;
    while i < list.len()
        invariant
            i <= list.len(),
            out@ == variants_debug(list@, i as nat),
        decreases list.len() - i,
    {
        let mut part = "(".to_string();
        part.append(text::quote(list[i].0.as_str()).as_str());
        part.append(", [");
        part.append(fields_debug_of(&list[i].1).as_str());
        part.append("])");
        if i > 0 {
            out.append(", ");
        }
        out.append(part.as_str());
        proof {
            if i == 0 {
                assert(out@ =~= part@);
            }
        }
        i = i + 1;
    }
    out
}

/// The first `n` numbers, separated by commas.
pub open spec fn numbers_debug(list: Seq<usize>, n: nat) -> Seq<char>
    decreases n,
{
    if n == 0 || n > list.len() {
        Seq::empty()
    } else if n == 1 {
        text::decimal(list[0] as nat)
    } else {
        numbers_debug(list, (n - 1) as nat) + ", "@ + (text::decimal(list[n - 1] as nat))
    }
}

fn numbers_debug_of(list: &Vec<usize>) -> (r: String)
    ensures
        r@ == numbers_debug(list@, list@.len()),
{
    let mut out = String::new();
    let mut i: usize = 0;
    while i < list.len()
        invariant
            i <= list.len(),
            out@ == numbers_debug(list@, i as nat),
        decreases list.len() - i,
    {
        let part = decimal_of(list[i] as u64);
        if i > 0 {
            out.append(", ");
        }
        out.append(part.as_str());
        proof {
            if i == 0 {
                assert(out@ =~= part@);
            }
        }
        i = i + 1;
    }
    out
}

impl TypedExpr {
    /// An expression in full.
    pub open spec fn debug(self) -> Seq<char>
        decreases self, 0nat,
    {
        "TypedExpr { kind: "@ + self.kind.debug() + ", ty: "@ + self.ty.debug()
            + ", grad_tracked: "@ + truth_text(self.grad_tracked) + " }"@
    }

    pub fn debug_text(&self) -> (r: String)
        ensures
            r@ == self.debug(),
        decreases self, 0nat,
    {
        let mut s = "TypedExpr { kind: ".to_string();
        s.append(self.kind.debug_text().as_str());
        s.append(", ty: ");
        s.append(self.ty.debug_text().as_str());
        s.append(", grad_tracked: ");
        s.append(truth(self.grad_tracked));
        s.append(" }");
        s
    }
}

impl TypedExprKind {
    /// What an expression is, in full.
    pub open spec fn debug(self) -> Seq<char>
        decreases self, 0nat,
    {
        match self {
            TypedExprKind::Lit(lit) => "Lit("@ + lit.debug() + ")"@,
            TypedExprKind::Ident(name) => "Ident("@ + text::quoted(name@) + ")"@,
            TypedExprKind::BinOp { op, lhs, rhs } => "BinOp { op: "@ + op.text() + ", lhs: "@
                + lhs.debug() + ", rhs: "@ + rhs.debug() + " }"@,
            TypedExprKind::Unary { op, operand } => "Unary { op: "@ + unary_text(op)
                + ", operand: "@ + operand.debug() + " }"@,
            TypedExprKind::Call { callee, args } => "Call { callee: "@ + text::quoted(callee@)
                + ", args: ["@ + exprs_debug(args@, args@.len()) + "] }"@,
            TypedExprKind::KernelCall { callee, args } => "KernelCall { callee: "@
                + text::quoted(callee@) + ", args: ["@ + exprs_debug(args@, args@.len()) + "] }"@,
            TypedExprKind::TensorLiteral { dtype, elements, shape } => "TensorLiteral { dtype: "@
                + dtype.variant_text() + ", elements: ["@
                + exprs_debug(elements@, elements@.len()) + "], shape: ["@
                + numbers_debug(shape@, shape@.len()) + "] }"@,
            TypedExprKind::Index { base, indices } => "Index { base: "@ + base.debug()
                + ", indices: ["@ + exprs_debug(indices@, indices@.len()) + "] }"@,
            TypedExprKind::ArrayLiteral { elements } => "ArrayLiteral { elements: ["@
                + exprs_debug(elements@, elements@.len()) + "] }"@,
            TypedExprKind::FieldAccess { base, field } => "FieldAccess { base: "@ + base.debug()
                + ", field: "@ + text::quoted(field@) + " }"@,
            TypedExprKind::StructInit { name, fields } => "StructInit { name: "@
                + text::quoted(name@) + ", fields: ["@ + exprs_debug(fields@, fields@.len())
                + "] }"@,
            TypedExprKind::EnumInit { variant_index, payload, max_payload_slots } => "EnumInit { variant_index: "@
                + text::decimal(variant_index as nat) + ", payload: ["@
                + exprs_debug(payload@, payload@.len()) + "], max_payload_slots: "@
                + text::decimal(max_payload_slots as nat) + " }"@,
            TypedExprKind::TupleInit { elements } => "TupleInit { elements: ["@
                + exprs_debug(elements@, elements@.len()) + "] }"@,
            TypedExprKind::TupleIndex { base, index } => "TupleIndex { base: "@ + base.debug()
                + ", index: "@ + text::decimal(index as nat) + " }"@,
            TypedExprKind::KernelLaunch { kernel, grid, tg, out_shape, tensor_args, scalar_args } =>
                "KernelLaunch { kernel: "@
                + text::quoted(kernel@) + ", grid: "@ + grid.debug() + ", tg: "@ + tg.debug()
                + ", out_shape: "@ + shape_debug(out_shape) + ", tensor_args: ["@
                + exprs_debug(tensor_args@, tensor_args@.len()) + "], scalar_args: ["@
                + exprs_debug(scalar_args@, scalar_args@.len()) + "] }"@,
        }
    }

    pub fn debug_text(&self) -> (r: String)
        ensures
            r@ == self.debug(),
        decreases self, 0nat,
    {
        match self {
            TypedExprKind::Lit(lit) => {
                let mut s = "Lit(".to_string();
                s.append(lit.debug_text().as_str());
                s.append(")");
                s
            },
            TypedExprKind::Ident(name) => {
                let mut s = "Ident(".to_string();
                s.append(text::quote(name.as_str()).as_str());
                s.append(")");
                s
            },
            TypedExprKind::BinOp { op, lhs, rhs } => {
                let mut s = "BinOp { op: ".to_string();
                s.append(op.name());
                s.append(", lhs: ");
                s.append(lhs.debug_text().as_str());
                s.append(", rhs: ");
                s.append(rhs.debug_text().as_str());
                s.append(" }");
                s
            },
            TypedExprKind::Unary { op, operand } => {
                let mut s = "Unary { op: ".to_string();
                s.append(unary_name(*op));
                s.append(", operand: ");
                s.append(operand.debug_text().as_str());
                s.append(" }");
                s
            },
            TypedExprKind::Call { callee, args } => {
                let mut s = "Call { callee: ".to_string();
                s.append(text::quote(callee.as_str()).as_str());
                s.append(", args: [");
                s.append(exprs_debug_of(args).as_str());
                s.append("] }");
                s
            },
            TypedExprKind::KernelCall { callee, args } => {
                let mut s = "KernelCall { callee: ".to_string();
                s.append(text::quote(callee.as_str()).as_str());
                s.append(", args: [");
                s.append(exprs_debug_of(args).as_str());
                s.append("] }");
                s
            },
            TypedExprKind::TensorLiteral { dtype, elements, shape } => {
                let mut s = "TensorLiteral { dtype: ".to_string();
                s.append(dtype.variant_name());
                s.append(", elements: [");
                s.append(exprs_debug_of(elements).as_str());
                s.append("], shape: [");
                s.append(numbers_debug_of(shape).as_str());
                s.append("] }");
                s
            },
            TypedExprKind::Index { base, indices } => {
                let mut s = "Index { base: ".to_string();
                s.append(base.debug_text().as_str());
                s.append(", indices: [");
                s.append(exprs_debug_of(indices).as_str());
                s.append("] }");
                s
            },
            TypedExprKind::ArrayLiteral { elements } => {
                let mut s = "ArrayLiteral { elements: [".to_string();
                s.append(exprs_debug_of(elements).as_str());
                s.append("] }");
                s
            },
            TypedExprKind::FieldAccess { base, field } => {
                let mut s = "FieldAccess { base: ".to_string();
                s.append(base.debug_text().as_str());
                s.append(", field: ");
                s.append(text::quote(field.as_str()).as_str());
                s.append(" }");
                s
            },
            TypedExprKind::StructInit { name, fields } => {
                let mut s = "StructInit { name: ".to_string();
                s.append(text::quote(name.as_str()).as_str());
                s.append(", fields: [");
                s.append(exprs_debug_of(fields).as_str());
                s.append("] }");
                s
            },
            TypedExprKind::EnumInit { variant_index, payload, max_payload_slots } => {
                let mut s = "EnumInit { variant_index: ".to_string();
                s.append(decimal_of(*variant_index as u64).as_str());
                s.append(", payload: [");
                s.append(exprs_debug_of(payload).as_str());
                s.append("], max_payload_slots: ");
                s.append(decimal_of(*max_payload_slots as u64).as_str());
                s.append(" }");
                s
            },
            TypedExprKind::TupleInit { elements } => {
                let mut s = "TupleInit { elements: [".to_string();
                s.append(exprs_debug_of(elements).as_str());
                s.append("] }");
                s
            },
            TypedExprKind::TupleIndex { base, index } => {
                let mut s = "TupleIndex { base: ".to_string();
                s.append(base.debug_text().as_str());
                s.append(", index: ");
                s.append(decimal_of(*index as u64).as_str());
                s.append(" }");
                s
            },
            TypedExprKind::KernelLaunch { kernel, grid, tg, out_shape, tensor_args, scalar_args } => {
                let mut s = "KernelLaunch { kernel: ".to_string();
                s.append(text::quote(kernel.as_str()).as_str());
                s.append(", grid: ");
                s.append(grid.debug_text().as_str());
                s.append(", tg: ");
                s.append(tg.debug_text().as_str());
                s.append(", out_shape: ");
                s.append(shape_text(out_shape).as_str());
                s.append(", tensor_args: [");
                s.append(exprs_debug_of(tensor_args).as_str());
                s.append("], scalar_args: [");
                s.append(exprs_debug_of(scalar_args).as_str());
                s.append("] }");
                s
            },
        }
    }
}

/// The shape of what a launch writes.
pub open spec fn shape_debug(shape: Option<Box<TypedExpr>>) -> Seq<char>
    decreases shape, 0nat,
{
    match shape {
        Some(e) => "Some("@ + e.debug() + ")"@,
        None => "None"@,
    }
}

fn shape_text(shape: &Option<Box<TypedExpr>>) -> (r: String)
    ensures
        r@ == shape_debug(*shape),
    decreases shape, 0nat,
{
    match shape {
        Some(e) => {
            let mut s = "Some(".to_string();
            s.append(e.debug_text().as_str());
            s.append(")");
            s
        },
        None => "None".to_string(),
    }
}

/// The first `n` expressions, separated by commas.
pub open spec fn exprs_debug(list: Seq<TypedExpr>, n: nat) -> Seq<char>
    decreases list, n,
{
    if n == 0 || n > list.len() {
        Seq::empty()
    } else if n == 1 {
        list[0].debug()
    } else {
        exprs_debug(list, (n - 1) as nat) + ", "@ + (list[n - 1].debug())
    }
}

fn exprs_debug_of(list: &Vec<TypedExpr>) -> (r: String)
    ensures
        r@ == exprs_debug(list@, list@.len()),
    decreases list, list@.len(),
{
    let mut out = String::new();
    let mut i: usize = 0;
    while i < list.len()
        invariant
            i <= list.len(),
            out@ == exprs_debug(list@, i as nat),
        decreases list.len() - i,
    {
        let part = list[i].debug_text();
        if i > 0 {
            out.append(", ");
        }
        out.append(part.as_str());
        proof {
            if i == 0 {
                assert(out@ =~= part@);
            }
        }
        i = i + 1;
    }
    out
}

impl TypedAssignTarget {
    /// A place in full.
    pub open spec fn debug(self) -> Seq<char>
    {
        match self {
            TypedAssignTarget::Ident(name) => "Ident("@ + text::quoted(name@) + ")"@,
            TypedAssignTarget::Index { base, index, elem_ty } => "Index { base: "@
                + text::quoted(base@) + ", index: "@ + index.debug() + ", elem_ty: "@
                + elem_ty.debug() + " }"@,
            TypedAssignTarget::ListIndex { base, index, elem_ty } => "ListIndex { base: "@
                + text::quoted(base@) + ", index: "@ + index.debug() + ", elem_ty: "@
                + elem_ty.debug() + " }"@,
            TypedAssignTarget::Field { base, slot_idx, field_ty } => "Field { base: "@
                + text::quoted(base@) + ", slot_idx: "@ + text::decimal(slot_idx as nat)
                + ", field_ty: "@ + field_ty.debug() + " }"@,
            TypedAssignTarget::BufferIndex { base, index, elem_ty } => "BufferIndex { base: "@
                + text::quoted(base@) + ", index: "@ + index.debug() + ", elem_ty: "@
                + elem_ty.debug() + " }"@,
        }
    }

    pub fn debug_text(&self) -> (r: String)
        ensures
            r@ == self.debug(),
    {
        match self {
            TypedAssignTarget::Ident(name) => {
                let mut s = "Ident(".to_string();
                s.append(text::quote(name.as_str()).as_str());
                s.append(")");
                s
            },
            TypedAssignTarget::Index { base, index, elem_ty } => {
                let mut s = "Index { base: ".to_string();
                s.append(text::quote(base.as_str()).as_str());
                s.append(", index: ");
                s.append(index.debug_text().as_str());
                s.append(", elem_ty: ");
                s.append(elem_ty.debug_text().as_str());
                s.append(" }");
                s
            },
            TypedAssignTarget::ListIndex { base, index, elem_ty } => {
                let mut s = "ListIndex { base: ".to_string();
                s.append(text::quote(base.as_str()).as_str());
                s.append(", index: ");
                s.append(index.debug_text().as_str());
                s.append(", elem_ty: ");
                s.append(elem_ty.debug_text().as_str());
                s.append(" }");
                s
            },
            TypedAssignTarget::Field { base, slot_idx, field_ty } => {
                let mut s = "Field { base: ".to_string();
                s.append(text::quote(base.as_str()).as_str());
                s.append(", slot_idx: ");
                s.append(decimal_of(*slot_idx as u64).as_str());
                s.append(", field_ty: ");
                s.append(field_ty.debug_text().as_str());
                s.append(" }");
                s
            },
            TypedAssignTarget::BufferIndex { base, index, elem_ty } => {
                let mut s = "BufferIndex { base: ".to_string();
                s.append(text::quote(base.as_str()).as_str());
                s.append(", index: ");
                s.append(index.debug_text().as_str());
                s.append(", elem_ty: ");
                s.append(elem_ty.debug_text().as_str());
                s.append(" }");
                s
            },
        }
    }
}

} // verus!
