//! Shader generation.

use std::collections::HashMap;

use malus::codegen_gpu::compile::compile_kernels;
use malus::codegen_gpu::error::CodegenError;
use malus::codegen_gpu::registry::KernelRegistry;
use malus::typed::{
    BinOp, FloatLit, Lit, ResolvedTy, ScalarTy, TypedAssignTarget, TypedExpr, TypedExprKind, TypedFn,
    TypedKernel, TypedParam, TypedProgram, TypedStmt, UnaryOp,
};

fn tensor(dtype: ScalarTy) -> ResolvedTy {
    ResolvedTy::Tensor { dtype }
}

fn f32_tensor() -> ResolvedTy {
    tensor(ScalarTy::F32)
}

fn f32_ty() -> ResolvedTy {
    ResolvedTy::Scalar(ScalarTy::F32)
}

fn i32_ty() -> ResolvedTy {
    ResolvedTy::Scalar(ScalarTy::I32)
}

fn ex(kind: TypedExprKind, ty: ResolvedTy) -> TypedExpr {
    TypedExpr { kind, ty, grad_tracked: false }
}

fn var(name: &str, ty: ResolvedTy) -> TypedExpr {
    ex(TypedExprKind::Ident(name.to_string()), ty)
}

fn t(name: &str) -> TypedExpr {
    var(name, f32_tensor())
}

fn i(name: &str) -> TypedExpr {
    var(name, i32_ty())
}

fn f(name: &str) -> TypedExpr {
    var(name, f32_ty())
}

fn num(v: i64) -> TypedExpr {
    ex(TypedExprKind::Lit(Lit::Int(v)), i32_ty())
}

fn flt(v: f64) -> TypedExpr {
    let lit = FloatLit { text: format!("{v:?}"), bits: (v as f32).to_bits() };
    ex(TypedExprKind::Lit(Lit::Float(lit)), f32_ty())
}

fn bin(op: BinOp, l: TypedExpr, r: TypedExpr, ty: ResolvedTy) -> TypedExpr {
    ex(TypedExprKind::BinOp { op, lhs: Box::new(l), rhs: Box::new(r) }, ty)
}

fn tt(op: BinOp, l: TypedExpr, r: TypedExpr) -> TypedExpr {
    bin(op, l, r, f32_tensor())
}

fn call(name: &str, args: Vec<TypedExpr>, ty: ResolvedTy) -> TypedExpr {
    ex(TypedExprKind::Call { callee: name.to_string(), args }, ty)
}

fn at(base: TypedExpr, index: TypedExpr) -> TypedExpr {
    ex(TypedExprKind::Index { base: Box::new(base), indices: vec![index] }, f32_ty())
}

fn bind(name: &str, e: TypedExpr) -> TypedStmt {
    TypedStmt::Let { name: name.to_string(), expr: e }
}

fn ret(e: TypedExpr) -> TypedStmt {
    TypedStmt::Return { expr: e }
}

fn set(name: &str, e: TypedExpr) -> TypedStmt {
    TypedStmt::Assign { target: TypedAssignTarget::Ident(name.to_string()), expr: e }
}

fn store(base: &str, index: TypedExpr, e: TypedExpr) -> TypedStmt {
    let target = TypedAssignTarget::Index { base: base.to_string(), index: Box::new(index), elem_ty: f32_ty() };
    TypedStmt::Assign { target, expr: e }
}

fn barrier() -> TypedStmt {
    TypedStmt::Expr(call("barrier", vec![], ResolvedTy::Unit))
}

fn range(name: &str, from: i64, to: TypedExpr, body: Vec<TypedStmt>) -> TypedStmt {
    TypedStmt::For { var: name.to_string(), start: num(from), end: to, body }
}

fn gpu(vals: &[f32]) -> TypedExpr {
    let elements = vals.iter().map(|v| flt(*v as f64)).collect();
    let kind = TypedExprKind::TensorLiteral { dtype: ScalarTy::F32, elements, shape: vec![vals.len()] };
    ex(kind, f32_tensor())
}

fn print(args: Vec<TypedExpr>) -> TypedStmt {
    TypedStmt::Expr(call("println", args, ResolvedTy::Unit))
}

fn param(name: &str, ty: ResolvedTy) -> TypedParam {
    TypedParam { name: name.to_string(), ty }
}

fn fun(name: &str, params: Vec<TypedParam>, return_ty: ResolvedTy, body: Vec<TypedStmt>) -> TypedFn {
    TypedFn { name: name.to_string(), params, return_ty, body }
}

fn main_fn(body: Vec<TypedStmt>) -> TypedFn {
    fun("main", vec![], ResolvedTy::Unit, body)
}

fn map_kernel(name: &str, params: &[&str], dtype: ScalarTy, body: Vec<TypedStmt>) -> TypedKernel {
    TypedKernel {
        name: name.to_string(),
        params: params.iter().map(|p| param(p, tensor(dtype))).collect(),
        return_ty: tensor(dtype),
        body,
        is_implicit_map: true,
    }
}

fn op_kernel(name: &str, op: BinOp) -> TypedKernel {
    map_kernel(name, &["a", "b"], ScalarTy::F32, vec![ret(tt(op, t("a"), t("b")))])
}

fn explicit(name: &str, params: Vec<TypedParam>, body: Vec<TypedStmt>) -> TypedKernel {
    TypedKernel { name: name.to_string(), params, return_ty: f32_tensor(), body, is_implicit_map: false }
}

/// Two tensors and further statements.
fn with_ab(mut more: Vec<TypedStmt>) -> TypedFn {
    let mut body = vec![bind("a", gpu(&[1.0, 2.0])), bind("b", gpu(&[3.0, 4.0]))];
    body.append(&mut more);
    main_fn(body)
}

struct Compiled {
    registry: KernelRegistry,
    names: Vec<(String, Option<u64>)>,
    total: usize,
}

impl Compiled {
    fn id(&self, name: &str) -> u64 {
        self.names.iter().find(|n| n.0 == name).unwrap().1.unwrap()
    }

    fn has(&self, name: &str) -> bool {
        self.names.iter().any(|n| n.0 == name && n.1.is_some())
    }

    fn msl(&self, name: &str) -> String {
        self.registry.msl_for(self.id(name)).expect("kernel should exist").to_string()
    }
}

const BUILTINS: [&str; 18] = [
    "malus_add", "malus_sub", "malus_mul", "malus_div", "malus_matmul", "malus_add_scalar",
    "malus_mul_scalar", "malus_sub_scalar", "malus_rsub_scalar", "malus_div_scalar",
    "malus_rdiv_scalar", "relu", "sigmoid", "tanh", "exp", "log", "sqrt", "abs",
];

fn compile(fns: Vec<TypedFn>, kernels: Vec<TypedKernel>) -> Result<Compiled, CodegenError> {
    let mut wanted: Vec<String> = BUILTINS.iter().map(|n| n.to_string()).collect();
    wanted.extend(kernels.iter().map(|k| k.name.clone()));
    let p = TypedProgram { fns, kernels };
    let mut next: u64 = 40;
    let (registry, ids) = compile_kernels(&p, &mut next)?;
    assert_eq!(next as usize, 40 + ids.len());
    let names = wanted.into_iter().map(|n| { let id = ids.get(&n).copied(); (n, id) }).collect();
    Ok(Compiled { registry, names, total: ids.len() })
}

#[test]
fn test_empty_program() {
    let hello = ex(TypedExprKind::Lit(Lit::Str("hello".to_string())), ResolvedTy::Str);
    let c = compile(vec![main_fn(vec![print(vec![hello])])], vec![]).expect("should compile");
    assert!(c.registry.is_empty());
    assert_eq!(c.total, 0);
}

#[test]
fn test_single_add_kernel_msl() {
    let main = main_fn(vec![
        bind("a", gpu(&[1.0, 2.0, 3.0, 4.0])),
        bind("b", gpu(&[5.0, 6.0, 7.0, 8.0])),
        bind("c", call("add", vec![t("a"), t("b")], f32_tensor())),
        print(vec![t("c")]),
    ]);
    let c = compile(vec![main], vec![op_kernel("add", BinOp::Add)]).expect("should compile");

    assert_eq!(c.total, 1);
    let add_id = c.id("add");

    let msl = c.msl("add");
    assert!(msl.contains(&format!("kernel void malus_kernel_{add_id}")));
    assert!(msl.contains("device float* a [[buffer(0)]]"));
    assert!(msl.contains("device float* b [[buffer(1)]]"));
    assert!(msl.contains("device float* out [[buffer(2)]]"));
    assert!(msl.contains("uint tid [[thread_position_in_grid]]"));
    assert!(msl.contains("out[tid] = (a[tid] + b[tid]);"));
}

#[test]
fn test_multiple_kernels_get_sequential_ids() {
    let kernels = vec![op_kernel("add", BinOp::Add), op_kernel("sub", BinOp::Sub)];
    let main = with_ab(vec![
        bind("c", call("add", vec![t("a"), t("b")], f32_tensor())),
        bind("d", call("sub", vec![t("a"), t("b")], f32_tensor())),
        print(vec![t("c")]),
        print(vec![t("d")]),
    ]);
    let c = compile(vec![main], kernels).expect("should compile");

    let add_id = c.id("add");
    let sub_id = c.id("sub");
    assert!(sub_id > add_id, "kernel ids within one compilation must be assigned in order");
    assert!(c.msl("add").contains(&format!("malus_kernel_{add_id}")));
    assert!(c.msl("sub").contains(&format!("malus_kernel_{sub_id}")));
}

#[test]
fn test_sub_mul_div_ops() {
    let kernels = vec![
        op_kernel("ksub", BinOp::Sub),
        op_kernel("kmul", BinOp::Mul),
        op_kernel("kdiv", BinOp::Div),
    ];
    let main = with_ab(vec![
        bind("c", call("ksub", vec![t("a"), t("b")], f32_tensor())),
        bind("d", call("kmul", vec![t("a"), t("b")], f32_tensor())),
        bind("e", call("kdiv", vec![t("a"), t("b")], f32_tensor())),
    ]);
    let c = compile(vec![main], kernels).expect("should compile");

    assert!(c.msl("ksub").contains("(a[tid] - b[tid])"));
    assert!(c.msl("kmul").contains("(a[tid] * b[tid])"));
    assert!(c.msl("kdiv").contains("(a[tid] / b[tid])"));
}

#[test]
fn test_unary_neg() {
    let neg = ex(TypedExprKind::Unary { op: UnaryOp::Neg, operand: Box::new(t("a")) }, f32_tensor());
    let kernel = map_kernel("neg", &["a"], ScalarTy::F32, vec![ret(neg)]);
    let c = compile(vec![main_fn(vec![])], vec![kernel]).expect("should compile");
    assert!(c.msl("neg").contains("(-a[tid])"));
}

#[test]
fn test_nested_binop_precedence() {
    let sum = tt(BinOp::Add, t("a"), t("b"));
    let kernel = map_kernel("fma", &["a", "b"], ScalarTy::F32, vec![ret(tt(BinOp::Mul, sum, t("a")))]);
    let c = compile(vec![main_fn(vec![])], vec![kernel]).expect("should compile");
    assert!(c.msl("fma").contains("((a[tid] + b[tid]) * a[tid])"));
}

#[test]
fn test_single_param_copy_kernel() {
    let kernel = map_kernel("copy", &["a"], ScalarTy::F32, vec![ret(t("a"))]);
    let c = compile(vec![main_fn(vec![])], vec![kernel]).expect("should compile");
    let msl = c.msl("copy");
    assert!(msl.contains("device float* a [[buffer(0)]]"));
    assert!(msl.contains("device float* out [[buffer(1)]]"));
    assert!(msl.contains("out[tid] = a[tid];"));
}

#[test]
fn test_matmul_rejected() {
    let result = compile(vec![main_fn(vec![])], vec![op_kernel("mm", BinOp::Matmul)]);
    assert!(result.is_err());
    let err = result.err().unwrap();
    assert!(matches!(err, CodegenError::UnsupportedKernelBody(_)));
    assert!(err.render().contains("matmul"));
}

#[test]
fn test_f16_dtype() {
    let half = || tensor(ScalarTy::F16);
    let sum = bin(BinOp::Add, var("a", half()), var("b", half()), half());
    let kernel = map_kernel("add", &["a", "b"], ScalarTy::F16, vec![ret(sum)]);
    let c = compile(vec![main_fn(vec![])], vec![kernel]).expect("should compile");
    let msl = c.msl("add");
    assert!(msl.contains("device half* a"));
    assert!(msl.contains("device half* out"));
}

// ── built-in element-wise kernel synthesis ───────────────────────────────────

#[test]
fn test_builtin_add_synthesized_from_fn_body_binop() {
    let add = fun(
        "add",
        vec![param("a", f32_tensor()), param("b", f32_tensor())],
        f32_tensor(),
        vec![ret(tt(BinOp::Add, t("a"), t("b")))],
    );
    let main = with_ab(vec![bind("c", call("add", vec![t("a"), t("b")], f32_tensor())), print(vec![t("c")])]);
    let c = compile(vec![add, main], vec![]).expect("should compile");
    assert_eq!(c.total, 1);
    let msl = c.msl("malus_add");
    assert!(msl.contains("kernel void malus_kernel_"));
    assert!(msl.contains("device float* a [[buffer(0)]]"));
    assert!(msl.contains("device float* b [[buffer(1)]]"));
    assert!(msl.contains("device float* out [[buffer(2)]]"));
    assert!(msl.contains("out[tid] = (a[tid] + b[tid]);"));
}

#[test]
fn test_builtin_ops_synthesized_for_sub_mul_div() {
    let main = with_ab(vec![
        bind("s", tt(BinOp::Sub, t("a"), t("b"))),
        bind("m", tt(BinOp::Mul, t("a"), t("b"))),
        bind("d", tt(BinOp::Div, t("a"), t("b"))),
        print(vec![t("s")]),
        print(vec![t("m")]),
        print(vec![t("d")]),
    ]);
    let c = compile(vec![main], vec![]).expect("should compile");
    assert_eq!(c.total, 3);
    assert!(c.msl("malus_sub").contains("out[tid] = (a[tid] - b[tid]);"));
    assert!(c.msl("malus_mul").contains("out[tid] = (a[tid] * b[tid]);"));
    assert!(c.msl("malus_div").contains("out[tid] = (a[tid] / b[tid]);"));
}

#[test]
fn test_builtin_ids_append_after_user_kernels() {
    let main = with_ab(vec![
        bind("c", call("ksub", vec![t("a"), t("b")], f32_tensor())),
        bind("d", tt(BinOp::Add, t("a"), t("b"))),
    ]);
    let c = compile(vec![main], vec![op_kernel("ksub", BinOp::Sub)]).expect("should compile");
    let ksub_id = c.id("ksub");
    let add_id = c.id("malus_add");
    assert!(add_id > ksub_id, "builtin ids must append after user kernel ids");
    assert!(c.msl("ksub").contains(&format!("malus_kernel_{ksub_id}")));
    assert!(c.msl("malus_add").contains(&format!("malus_kernel_{add_id}")));
}

#[test]
fn test_chained_binops_synthesize_two_builtins() {
    let fma = fun(
        "fma",
        vec![param("a", f32_tensor()), param("b", f32_tensor()), param("c", f32_tensor())],
        f32_tensor(),
        vec![ret(tt(BinOp::Add, t("a"), tt(BinOp::Mul, t("b"), t("c"))))],
    );
    let c = compile(vec![fma, main_fn(vec![])], vec![]).expect("should compile");
    assert!(c.has("malus_add"));
    assert!(c.has("malus_mul"));
}

#[test]
fn test_tensor_matmul_in_fn_body_not_synthesized() {
    let mm = fun(
        "mm",
        vec![param("a", f32_tensor()), param("b", f32_tensor())],
        f32_tensor(),
        vec![ret(tt(BinOp::Matmul, t("a"), t("b")))],
    );
    let c = compile(vec![mm, main_fn(vec![])], vec![]).expect("should compile");
    assert!(!c.has("malus_matmul"));
    assert_eq!(c.total, 0);
}

// ── multi-statement kernel bodies ────────────────────────────────────────────

#[test]
fn test_multistmt_kernel_let_then_return() {
    let body = vec![
        bind("mask", bin(BinOp::Gt, t("x"), flt(0.0), f32_ty())),
        ret(tt(BinOp::Mul, t("grad_out"), f("mask"))),
    ];
    let kernel = map_kernel("relu_backward", &["grad_out", "x"], ScalarTy::F32, body);
    let c = compile(vec![main_fn(vec![])], vec![kernel]).expect("should compile");
    let msl = c.msl("relu_backward");
    assert!(msl.contains("float mask = (x[tid] > 0.0f);"), "got:\n{msl}");
    assert!(msl.contains("out[tid] = (grad_out[tid] * mask);"), "got:\n{msl}");
}

#[test]
fn test_kernel_comparison_ops_in_msl() {
    let body = vec![bind("lt_mask", bin(BinOp::Lt, t("a"), t("b"), f32_ty())), ret(f("lt_mask"))];
    let kernel = map_kernel("cmp_kernel", &["a", "b"], ScalarTy::F32, body);
    let c = compile(vec![main_fn(vec![])], vec![kernel]).expect("should compile");
    let msl = c.msl("cmp_kernel");
    assert!(msl.contains("(a[tid] < b[tid])"), "< comparison should appear in MSL, got:\n{msl}");
}

#[test]
fn test_kernel_float_literal_in_msl() {
    let body = vec![bind("half", flt(0.5)), ret(tt(BinOp::Mul, t("a"), f("half")))];
    let kernel = map_kernel("scale", &["a"], ScalarTy::F32, body);
    let c = compile(vec![main_fn(vec![])], vec![kernel]).expect("should compile");
    let msl = c.msl("scale");
    assert!(msl.contains("0.5f"), "float literal should emit as 0.5f in MSL, got:\n{msl}");
    assert!(msl.contains("float half = 0.5f;"), "let binding should emit correctly, got:\n{msl}");
}

// ── scalar-broadcast builtin synthesis ───────────────────────────────────────

#[test]
fn test_scalar_broadcast_mul_synthesized() {
    let main = with_ab(vec![bind("scaled", tt(BinOp::Mul, t("a"), flt(0.5))), print(vec![t("scaled")])]);
    let c = compile(vec![main], vec![]).expect("should compile");
    assert!(c.has("malus_mul_scalar"), "malus_mul_scalar should be synthesized");
    let msl = c.msl("malus_mul_scalar");
    assert!(msl.contains("device float* a [[buffer(0)]]"), "tensor param at buffer(0)");
    assert!(msl.contains("device float* scalar_val [[buffer(1)]]"), "scalar param at buffer(1)");
    assert!(msl.contains("device float* out [[buffer(2)]]"), "output at buffer(2)");
    assert!(msl.contains("(a[tid] * scalar_val[0])"), "MSL body should multiply a[tid] by scalar_val[0]");
}

#[test]
fn test_scalar_broadcast_add_synthesized() {
    let main = with_ab(vec![bind("c", tt(BinOp::Add, t("a"), flt(1.0)))]);
    let c = compile(vec![main], vec![]).expect("should compile");
    assert!(c.has("malus_add_scalar"));
}

#[test]
fn test_scalar_broadcast_commutative_dedup() {
    let main = main_fn(vec![
        bind("a", gpu(&[1.0, 2.0])),
        bind("b", tt(BinOp::Add, t("a"), flt(0.5))),
        bind("c", tt(BinOp::Add, flt(0.5), t("a"))),
        print(vec![t("b")]),
        print(vec![t("c")]),
    ]);
    let c = compile(vec![main], vec![]).expect("should compile");
    assert_eq!(c.total, 1, "malus_add_scalar should appear exactly once");
    assert!(c.registry.msl_for(c.id("malus_add_scalar")).is_some());
}

#[test]
fn test_scalar_broadcast_sub_div_both_orders() {
    let main = main_fn(vec![
        bind("a", gpu(&[1.0, 2.0])),
        bind("b", tt(BinOp::Sub, t("a"), flt(1.0))),
        bind("c", tt(BinOp::Sub, flt(1.0), t("a"))),
        bind("d", tt(BinOp::Div, t("a"), flt(2.0))),
        print(vec![t("b")]),
        print(vec![t("c")]),
        print(vec![t("d")]),
    ]);
    let c = compile(vec![main], vec![]).expect("should compile");
    assert!(c.has("malus_sub_scalar"), "tensor - scalar should produce malus_sub_scalar");
    assert!(c.has("malus_rsub_scalar"), "scalar - tensor should produce malus_rsub_scalar");
    assert!(c.has("malus_div_scalar"), "tensor / scalar should produce malus_div_scalar");
    assert!(!c.has("malus_rdiv_scalar"));
}

#[test]
fn test_scalar_builtin_ids_after_user_and_tensor_tensor_kernels() {
    let copy = map_kernel("copy", &["a"], ScalarTy::F32, vec![ret(t("a"))]);
    let main = with_ab(vec![
        bind("c", call("copy", vec![t("a")], f32_tensor())),
        bind("d", tt(BinOp::Add, t("a"), t("b"))),
        bind("e", tt(BinOp::Mul, t("a"), flt(0.5))),
        print(vec![t("c")]),
        print(vec![t("d")]),
        print(vec![t("e")]),
    ]);
    let c = compile(vec![main], vec![copy]).expect("should compile");
    let copy_id = c.id("copy");
    let add_id = c.id("malus_add");
    let mul_s_id = c.id("malus_mul_scalar");
    assert!(copy_id < add_id, "user kernel id ({copy_id}) < tensor-tensor builtin id ({add_id})");
    assert!(add_id < mul_s_id, "tensor-tensor builtin id ({add_id}) < scalar builtin id ({mul_s_id})");
}

// ── explicit kernels ─────────────────────────────────────────────────────────

fn idx_add(l: &str, r: &str) -> TypedExpr {
    bin(BinOp::Add, i(l), i(r), i32_ty())
}

fn fbin(op: BinOp, l: TypedExpr, r: TypedExpr) -> TypedExpr {
    bin(op, l, r, f32_ty())
}

fn scratch(index: TypedExpr) -> TypedExpr {
    let ty = ResolvedTy::Array { elem: Box::new(f32_ty()), len: 1024 };
    at(var("scratch", ty), index)
}

fn input(index: TypedExpr) -> TypedExpr {
    at(t("input"), index)
}

fn row_start() -> Vec<TypedStmt> {
    vec![
        bind("row", call("threadgroup_id", vec![], i32_ty())),
        bind("col", call("thread_in_threadgroup", vec![], i32_ty())),
        bind("start", bin(BinOp::Mul, i("row"), i("cols"), i32_ty())),
        TypedStmt::LetShared { name: "scratch".to_string(), elem_ty: ScalarTy::F32, size: 1024 },
        store("scratch", i("col"), input(idx_add("start", "col"))),
        barrier(),
    ]
}

#[test]
fn test_m24_explicit_kernel_emits_msl() {
    let mut body = row_start();
    body.extend(vec![
        bind("m", scratch(num(0))),
        range("i", 1, i("cols"), vec![set("m", call("fmax", vec![f("m"), scratch(i("i"))], f32_ty()))]),
        barrier(),
        store("scratch", i("col"), call("exp", vec![fbin(BinOp::Sub, scratch(i("col")), f("m"))], f32_ty())),
        barrier(),
        bind("s", flt(0.0)),
        range("j", 0, i("cols"), vec![set("s", fbin(BinOp::Add, f("s"), scratch(i("j"))))]),
        barrier(),
        store("out", idx_add("start", "col"), fbin(BinOp::Div, scratch(i("col")), f("s"))),
    ]);
    let kernel = explicit("softmax", vec![param("input", f32_tensor()), param("cols", i32_ty())], body);
    let c = compile(vec![main_fn(vec![bind("_a", num(0))])], vec![kernel]).expect("should compile");
    let kernel_id = c.id("softmax");
    let msl = c.msl("softmax");

    assert!(msl.contains("threadgroup float scratch[1024]"), "shared memory declaration missing");
    assert!(msl.contains("threadgroup_barrier(mem_flags::mem_threadgroup)"), "barrier missing");
    assert!(msl.contains("for(int i = 1; i < u.cols; i++)"), "for loop (range 1..cols) missing");
    assert!(msl.contains("for(int j = 0; j < u.cols; j++)"), "for loop (range 0..cols) missing");
    assert!(msl.contains("uint _tgid [[threadgroup_position_in_grid]]"), "threadgroup_id attr missing");
    assert!(msl.contains("uint _lid [[thread_position_in_threadgroup]]"), "thread_in_threadgroup attr missing");
    assert!(msl.contains(&format!("struct Uniforms_{kernel_id}")), "uniforms struct missing");
    assert!(msl.contains("int cols"), "cols field in uniforms missing");
    assert!(msl.contains("fmax("), "fmax call missing");
    assert!(msl.contains("exp("), "exp call missing");
}

#[test]
fn test_m24_gelu_explicit_kernel_no_uniforms() {
    let cube = fbin(BinOp::Mul, fbin(BinOp::Mul, f("x"), f("x")), f("x"));
    let scaled = fbin(BinOp::Add, f("x"), fbin(BinOp::Mul, flt(0.044715), f("x3")));
    let bent = fbin(BinOp::Add, flt(1.0), call("tanh", vec![f("inner")], f32_ty()));
    let body = vec![
        bind("i", call("thread_id", vec![], i32_ty())),
        bind("x", input(i("i"))),
        bind("x3", cube),
        bind("inner", fbin(BinOp::Mul, flt(0.7978845608028654), scaled)),
        store("out", i("i"), fbin(BinOp::Mul, fbin(BinOp::Mul, flt(0.5), f("x")), bent)),
    ];
    let kernel = explicit("gelu", vec![param("input", f32_tensor())], body);
    let c = compile(vec![main_fn(vec![bind("_a", num(0))])], vec![kernel]).expect("should compile");
    let msl = c.msl("gelu");

    assert!(msl.contains("uint _tid [[thread_position_in_grid]]"), "thread_id attr missing");
    assert!(!msl.contains("Uniforms_"), "no uniforms struct expected for gelu");
    assert!(msl.contains("tanh("), "tanh call missing");
    assert!(!msl.contains("threadgroup"), "no threadgroup memory expected in gelu");
}

#[test]
fn test_m24_layernorm_uniforms_struct() {
    let mut body = row_start();
    body.extend(vec![
        bind("s", flt(0.0)),
        range("i", 0, i("cols"), vec![set("s", fbin(BinOp::Add, f("s"), scratch(i("i"))))]),
        bind("mean", fbin(BinOp::Mul, f("s"), f("inv_cols"))),
        barrier(),
        bind("v", flt(0.0)),
        range(
            "j",
            0,
            i("cols"),
            vec![
                bind("d", fbin(BinOp::Sub, scratch(i("j")), f("mean"))),
                set("v", fbin(BinOp::Add, f("v"), fbin(BinOp::Mul, f("d"), f("d")))),
            ],
        ),
        bind(
            "inv_std",
            call("rsqrt", vec![fbin(BinOp::Add, fbin(BinOp::Mul, f("v"), f("inv_cols")), f("eps"))], f32_ty()),
        ),
        barrier(),
        store(
            "out",
            idx_add("start", "col"),
            fbin(BinOp::Mul, fbin(BinOp::Sub, scratch(i("col")), f("mean")), f("inv_std")),
        ),
    ]);
    let params = vec![
        param("input", f32_tensor()),
        param("cols", i32_ty()),
        param("inv_cols", f32_ty()),
        param("eps", f32_ty()),
    ];
    let kernel = explicit("layernorm", params, body);
    let c = compile(vec![main_fn(vec![bind("_a", num(0))])], vec![kernel]).expect("should compile");
    let kernel_id = c.id("layernorm");
    let msl = c.msl("layernorm");

    assert!(msl.contains(&format!("struct Uniforms_{kernel_id}")), "uniforms struct missing");
    assert!(msl.contains("int cols"), "cols field missing");
    assert!(msl.contains("float inv_cols"), "inv_cols field missing");
    assert!(msl.contains("float eps"), "eps field missing");
    assert!(msl.contains("rsqrt("), "rsqrt call missing");
    assert!(msl.contains("threadgroup float scratch[1024]"), "shared memory missing");
}

// ── further checks ───────────────────────────────────────────────────────────

#[test]
fn unary_builtins_get_kernels() {
    let main = main_fn(vec![bind("a", gpu(&[1.0])), bind("b", call("relu", vec![t("a")], f32_tensor()))]);
    let c = compile(vec![main], vec![]).unwrap();
    assert_eq!(c.total, 1);
    assert!(c.msl("relu").contains("out[tid]"));
}

#[test]
fn used_builtins_are_numbered_apart() {
    let main = with_ab(vec![
        bind("c", tt(BinOp::Add, t("a"), t("b"))),
        bind("d", tt(BinOp::Div, flt(1.0), t("a"))),
        bind("e", call("exp", vec![t("a")], f32_tensor())),
    ]);
    let c = compile(vec![main], vec![]).unwrap();
    let mut ids = vec![c.id("malus_add"), c.id("malus_rdiv_scalar"), c.id("exp")];
    assert_eq!(ids, vec![40, 41, 42]);
    ids.dedup();
    assert_eq!(ids.len(), 3);
}

#[test]
fn registry_keeps_sources() {
    let mut r = KernelRegistry::new();
    assert!(r.is_empty());
    r.insert(3, "three".to_string());
    r.insert(1, "one".to_string());
    r.insert(3, "drei".to_string());
    assert_eq!(r.msl_for(3).unwrap().to_string(), "drei");
    assert!(r.msl_for(2).is_none());
    let keys: Vec<u64> = r.iter().iter().map(|e| e.0).collect();
    assert_eq!(keys, vec![1, 3]);
}

#[test]
fn registry_and_hash_map_hold_the_same() {
    let mut m: HashMap<u64, String> = HashMap::new();
    m.insert(9, "nine".to_string());
    m.insert(2, "two".to_string());
    m.insert(5, "five".to_string());
    let r = KernelRegistry::from(m.clone());
    assert!(!r.is_empty());
    assert_eq!(r.msl_for(5), Some("five"));
    assert_eq!(r.msl_for(4), None);
    let listed = r.iter();
    let want = vec![(2, "two".to_string()), (5, "five".to_string()), (9, "nine".to_string())];
    assert_eq!(listed, want);
    assert_eq!(r.clone().into_hashmap(), m);
    assert_eq!(r.into_hashmap(), m);
    assert!(KernelRegistry::default().into_hashmap().is_empty());
}

#[test]
fn intrinsics_of_an_assigned_place_are_declared() {
    let body = vec![store("out", call("thread_id", vec![], i32_ty()), flt(1.0))];
    let kernel = explicit("fill", vec![param("input", f32_tensor())], body);
    let c = compile(vec![main_fn(vec![])], vec![kernel]).unwrap();
    let msl = c.msl("fill");
    assert!(msl.contains("out[(int)_tid] = "), "{msl}");
    assert!(msl.contains("uint _tid [[thread_position_in_grid]]"), "{msl}");
    assert!(!msl.contains("_tgid"), "{msl}");
    assert!(!msl.contains("_gridsize"), "{msl}");
}

#[test]
fn builtins_are_found_in_bodies_and_conditions() {
    let inner = || vec![bind("c", tt(BinOp::Mul, t("a"), flt(0.5)))];
    let list = ResolvedTy::Array { elem: Box::new(f32_tensor()), len: 1 };
    let elements = vec![tt(BinOp::Add, t("a"), t("b"))];
    let over = TypedStmt::ForIn {
        var: "t".to_string(),
        iter: ex(TypedExprKind::ArrayLiteral { elements }, list),
        body: inner(),
    };
    let c = compile(vec![with_ab(vec![over])], vec![]).unwrap();
    assert!(c.has("malus_mul_scalar"));
    assert_eq!(c.total, 1);

    let len = |e: TypedExpr| ex(TypedExprKind::FieldAccess { base: Box::new(e), field: "len".to_string() }, i32_ty());
    let counted = TypedStmt::For {
        var: "i".to_string(),
        start: len(call("exp", vec![t("a")], f32_tensor())),
        end: len(tt(BinOp::Sub, t("a"), t("b"))),
        body: inner(),
    };
    let c = compile(vec![with_ab(vec![counted])], vec![]).unwrap();
    assert!(c.has("malus_mul_scalar"));
    assert_eq!(c.total, 1);

    let long = TypedStmt::While { condition: len(tt(BinOp::Sub, t("a"), t("b"))), body: inner() };
    let c = compile(vec![with_ab(vec![long])], vec![]).unwrap();
    assert!(c.has("malus_sub"));
    assert!(c.has("malus_mul_scalar"));
    assert_eq!(c.total, 2);

    let place = store("xs", len(tt(BinOp::Add, t("a"), t("b"))), len(call("exp", vec![t("a")], f32_tensor())));
    let c = compile(vec![with_ab(vec![place])], vec![]).unwrap();
    assert!(c.has("exp"));
    assert_eq!(c.total, 1);

    let neg = ex(TypedExprKind::Unary { op: UnaryOp::Neg, operand: Box::new(t("a")) }, f32_tensor());
    let c = compile(vec![with_ab(vec![bind("n", neg)])], vec![]).unwrap();
    assert_eq!(c.total, 0);
}

#[test]
fn kernel_numbers_are_not_used_again() {
    let p = TypedProgram {
        fns: vec![with_ab(vec![bind("c", tt(BinOp::Add, t("a"), t("b")))])],
        kernels: vec![op_kernel("mine", BinOp::Mul)],
    };
    let mut next: u64 = 7;
    let (first, _) = compile_kernels(&p, &mut next).unwrap();
    assert_eq!(next, 9);
    let (second, _) = compile_kernels(&p, &mut next).unwrap();
    assert_eq!(next, 11);
    let a: Vec<u64> = first.iter().iter().map(|e| e.0).collect();
    let b: Vec<u64> = second.iter().iter().map(|e| e.0).collect();
    assert_eq!(a, vec![7, 8]);
    assert_eq!(b, vec![9, 10]);
}

#[test]
fn errors_are_worded() {
    let not = ex(TypedExprKind::Unary { op: UnaryOp::Not, operand: Box::new(t("a")) }, f32_tensor());
    let kernel = map_kernel("bad", &["a"], ScalarTy::F32, vec![ret(not)]);
    let err = compile(vec![main_fn(vec![])], vec![kernel]).err().unwrap();
    assert!(matches!(&err, CodegenError::UnsupportedKernelBody(_)));
    assert!(err.render().starts_with("unsupported kernel body"));
}

/// The payload of the error that an explicit kernel with this body gives.
fn refusal(body: Vec<TypedStmt>) -> String {
    let kernel = explicit("bad", vec![param("input", f32_tensor())], body);
    match compile(vec![main_fn(vec![])], vec![kernel]) {
        Err(CodegenError::UnsupportedKernelBody(s)) => s,
        _ => panic!("expected a refusal"),
    }
}

#[test]
fn misplaced_parts_are_told_by_their_variant() {
    assert_eq!(refusal(vec![TypedStmt::Break]), "statement not valid in explicit kernel body: Discriminant(10)");
    let parts = || {
        vec![
            TypedStmt::Continue,
            TypedStmt::GpuBarrier,
            TypedStmt::Drop { name: "a".to_string() },
            TypedStmt::DropBuffer { name: "a".to_string() },
            TypedStmt::NoGrad { body: vec![] },
            TypedStmt::Match { scrutinee: i("x"), arms: vec![] },
        ]
    };
    for s in parts() {
        let want = format!("statement not valid in explicit kernel body: {:?}", std::mem::discriminant(&s));
        assert_eq!(refusal(vec![s]), want);
    }
    let tuple = || ex(TypedExprKind::TupleInit { elements: vec![num(1)] }, ResolvedTy::Tuple(vec![i32_ty()]));
    let want = format!("unsupported expression kind in explicit kernel: {:?}", std::mem::discriminant(&tuple().kind));
    assert_eq!(refusal(vec![bind("p", ex(tuple().kind, i32_ty()))]), want);
    let ndim = ex(TypedExprKind::FieldAccess { base: Box::new(num(3)), field: "ndim".to_string() }, i32_ty());
    let want = "shape/stride/ndim access requires a simple tensor parameter name, got Discriminant(0)";
    assert_eq!(refusal(vec![bind("n", ndim)]), want);
}

#[test]
fn unsupported_places_are_written_in_full() {
    let field = || TypedAssignTarget::Field { base: "p".to_string(), slot_idx: 2, field_ty: f32_ty() };
    assert_eq!(
        refusal(vec![TypedStmt::Assign { target: field(), expr: num(1) }]),
        "unsupported lvalue target in kernel: Field { base: \"p\", slot_idx: 2, field_ty: Scalar(F32) }",
    );
    let fields = vec![("x".to_string(), i32_ty()), ("y".to_string(), ResolvedTy::Bool)];
    let shape = ResolvedTy::Enum {
        name: "E".to_string(),
        variants: vec![("A".to_string(), fields), ("B".to_string(), vec![])],
    };
    let odd = ex(TypedExprKind::Lit(Lit::Str("a\"b\\c\n\r\t\0\u{1}\u{1f}\u{7f}'é".to_string())), ResolvedTy::Str);
    let args = vec![num(-7), odd, ex(TypedExprKind::Lit(Lit::Bool(true)), ResolvedTy::Bool)];
    let index = || bin(BinOp::Add, i("n"), num(1), i32_ty());
    let deep = call("f", args, ResolvedTy::Tuple(vec![ResolvedTy::Unit, ResolvedTy::List { elem: Box::new(shape) }]));
    let launch = ex(
        TypedExprKind::KernelLaunch {
            kernel: "k".to_string(),
            grid: Box::new(index()),
            tg: Box::new(num(1)),
            out_shape: Some(Box::new(num(2))),
            tensor_args: vec![t("a")],
            scalar_args: vec![],
        },
        ResolvedTy::Array { elem: Box::new(ResolvedTy::Buffer { dtype: ScalarTy::Bf16 }), len: 3 },
    );
    let literal = ex(
        TypedExprKind::TensorLiteral { dtype: ScalarTy::U8, elements: vec![deep, launch], shape: vec![1, 2] },
        tensor(ScalarTy::U8),
    );
    let built = ex(
        TypedExprKind::EnumInit { variant_index: 1, payload: vec![literal], max_payload_slots: 4 },
        ResolvedTy::Struct { name: "S".to_string(), fields: vec![] },
    );
    let list = TypedAssignTarget::ListIndex { base: "xs".to_string(), index: Box::new(built), elem_ty: f32_tensor() };
    let want = format!("unsupported lvalue target in kernel: {:?}", list);
    assert_eq!(refusal(vec![TypedStmt::Assign { target: list, expr: num(1) }]), want);
    let buffer = TypedAssignTarget::BufferIndex { base: "b".to_string(), index: Box::new(index()), elem_ty: i32_ty() };
    let want = format!("unsupported lvalue target in kernel: {:?}", buffer);
    assert_eq!(refusal(vec![TypedStmt::Assign { target: buffer, expr: num(1) }]), want);
    let half = TypedAssignTarget::BufferIndex { base: "b".to_string(), index: Box::new(flt(0.5)), elem_ty: i32_ty() };
    assert!(refusal(vec![TypedStmt::Assign { target: half, expr: num(1) }]).contains("kind: Lit(Float(0.5)), ty"));
}
