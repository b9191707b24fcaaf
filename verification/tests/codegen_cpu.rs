//! Host code generation, checked by running the generated instructions on a
//! small machine with a mock runtime.

use std::collections::HashMap;

use malus::codegen_cpu::compile::{backward_slots, compile_program, CompiledFn, CompiledProgram};
use malus::codegen_cpu::inst::{Arith, Callee, ClTy, Convert, FloatCc, Inst, IntCc, Val};
use malus::codegen_cpu::segments::{parse_format_string, FormatSegment};
use malus::codegen_cpu::state::CodegenError;
use malus::codegen_cpu::symbols::{runtime_symbols, RtSym};
use malus::codegen_gpu::compile::compile_kernels;
use malus::runtime::aggregate::RefCount;
use malus::runtime::tags::BwdSlot;
use malus::typed::{
    BinOp, DropVariant, FloatLit, Lit, ResolvedTy, ScalarTy, TypedAssignTarget, TypedExpr,
    TypedExprKind, TypedFn, TypedKernel, TypedMatchArm, TypedParam, TypedProgram, TypedStmt, UnaryOp,
};

// ── A machine for generated code ─────────────────────────────────────────────

struct MockTensor {
    data: Vec<f32>,
    shape: Vec<usize>,
}

struct Machine {
    prog: CompiledProgram,
    mem: Vec<u8>,
    boxes: HashMap<i64, RefCount>,
    tensors: HashMap<i64, MockTensor>,
    next_id: i64,
    dispatches: usize,
    launches: Vec<(u64, Vec<i64>, Vec<usize>, Vec<usize>, Vec<usize>, Vec<u32>)>,
    recorded: Vec<(i64, Vec<i64>)>,
    leaves: Vec<i64>,
    paused: usize,
    zeroed: Vec<i64>,
    given_up: Vec<(RtSym, i64)>,
    output: String,
}

fn width(ty: ClTy) -> usize {
    match ty {
        ClTy::I8 => 1,
        ClTy::I16 => 2,
        ClTy::I32 | ClTy::F32 => 4,
        ClTy::I64 | ClTy::Ptr => 8,
    }
}

fn narrow(ty: ClTy, v: i64) -> i64 {
    match ty {
        ClTy::I8 => v as i8 as i64,
        ClTy::I16 => v as i16 as i64,
        ClTy::I32 => v as i32 as i64,
        ClTy::F32 => v as u32 as i64,
        ClTy::I64 | ClTy::Ptr => v,
    }
}

fn float(v: i64) -> f32 {
    f32::from_bits(v as u32)
}

fn bits(v: f32) -> i64 {
    v.to_bits() as i64
}

fn types_of(f: &CompiledFn) -> Vec<Option<ClTy>> {
    let mut tys: Vec<Option<ClTy>> = Vec::new();
    for i in &f.code {
        let at = |v: Val| tys[v.0];
        let ty = match *i {
            Inst::Param { ty, .. }
            | Inst::DeclareVar { ty }
            | Inst::Iconst { ty, .. }
            | Inst::Load { ty, .. } => Some(ty),
            Inst::UseVar { var } => at(Val(var.0)),
            Inst::F32Const { .. } | Inst::F32FromInt { .. } => Some(ClTy::F32),
            Inst::Arith { lhs, .. } => at(lhs),
            Inst::IaddImm { val, .. } => at(val),
            Inst::IntCompare { .. } | Inst::FloatCompare { .. } => Some(ClTy::I8),
            Inst::Convert { conv, val } => match conv {
                Convert::Fneg | Convert::Ineg => at(val),
                Convert::Bmask8 => Some(ClTy::I8),
                Convert::Sextend64 => Some(ClTy::I64),
                Convert::Ireduce32 => Some(ClTy::I32),
                Convert::FcvtFromSint => Some(ClTy::F32),
            },
            Inst::StackAddr { .. } | Inst::CstrAddr { .. } => Some(ClTy::Ptr),
            Inst::Call { callee, .. } => match callee {
                Callee::Runtime(s) => s.result_type(),
                Callee::Function { ret, .. } => ret,
            },
            _ => None,
        };
        tys.push(ty);
    }
    tys
}

impl Machine {
    fn new(prog: CompiledProgram) -> Machine {
        Machine {
            prog,
            mem: vec![0; 16],
            boxes: HashMap::new(),
            tensors: HashMap::new(),
            next_id: 1,
            dispatches: 0,
            launches: vec![],
            recorded: vec![],
            leaves: vec![],
            paused: 0,
            zeroed: vec![],
            given_up: vec![],
            output: String::new(),
        }
    }

    fn reserve(&mut self, size: usize) -> i64 {
        let at = self.mem.len();
        self.mem.resize(at + (size + 15) / 8 * 8, 0);
        at as i64
    }

    fn write(&mut self, at: i64, ty: ClTy, v: i64) {
        let n = width(ty);
        let at = at as usize;
        self.mem[at..at + n].copy_from_slice(&v.to_le_bytes()[..n]);
    }

    fn read(&self, at: i64, ty: ClTy) -> i64 {
        let n = width(ty);
        let at = at as usize;
        let mut raw = [0u8; 8];
        raw[..n].copy_from_slice(&self.mem[at..at + n]);
        narrow(ty, i64::from_le_bytes(raw))
    }

    fn words(&self, at: i64, n: i64) -> Vec<usize> {
        (0..n).map(|i| self.read(at + 8 * i, ClTy::I64) as usize).collect()
    }

    fn text(&self, at: i64) -> String {
        let at = at as usize;
        let n = self.mem[at..].iter().position(|b| *b == 0).unwrap();
        String::from_utf8(self.mem[at..at + n].to_vec()).unwrap()
    }

    fn insert(&mut self, data: Vec<f32>, shape: Vec<usize>) -> i64 {
        let id = self.next_id;
        self.next_id += 1;
        self.tensors.insert(id, MockTensor { data, shape });
        id
    }

    fn filled(&mut self, at: i64, n: i64, v: f32) -> i64 {
        let shape = self.words(at, n);
        let count: usize = shape.iter().product();
        self.insert(vec![v; count], shape)
    }

    fn data(&self, h: i64) -> Vec<f32> {
        self.tensors.get(&h).map(|t| t.data.clone()).unwrap_or_default()
    }

    fn shape(&self, h: i64) -> Vec<usize> {
        self.tensors.get(&h).map(|t| t.shape.clone()).unwrap_or_default()
    }

    fn print_tensor(&mut self, h: i64) {
        let parts: Vec<String> = self.data(h).iter().map(|v| format!("{v}")).collect();
        self.output.push_str(&format!("[{}]", parts.join(", ")));
    }

    fn matmul(&mut self, a: i64, b: i64) -> i64 {
        let (ad, ash) = (self.data(a), self.shape(a));
        let (bd, bsh) = (self.data(b), self.shape(b));
        let (m, k, n) = (ash[0], ash[1], bsh[1]);
        let mut out = vec![0.0f32; m * n];
        for i in 0..m {
            for j in 0..n {
                for kk in 0..k {
                    out[i * n + j] += ad[i * k + kk] * bd[kk * n + j];
                }
            }
        }
        self.insert(out, vec![m, n])
    }

    fn transpose(&mut self, h: i64) -> i64 {
        let (data, shape) = (self.data(h), self.shape(h));
        let (m, n) = (shape[0], shape[1]);
        let mut out = vec![0.0f32; m * n];
        for i in 0..m {
            for j in 0..n {
                out[j * m + i] = data[i * n + j];
            }
        }
        self.insert(out, vec![n, m])
    }

    fn runtime(&mut self, s: RtSym, a: &[i64]) -> i64 {
        assert_eq!(a.len(), s.param_types().len(), "arguments of {}", s.name());
        let releases = [RtSym::TensorRelease, RtSym::AggregateRelease, RtSym::ListRelease, RtSym::HeapFree];
        if releases.contains(&s) {
            self.given_up.push((s, a[0]));
        }
        match s {
            RtSym::TensorAllocGpu => {
                let shape = self.words(a[1], a[2]);
                let n: usize = shape.iter().product();
                let data = (0..n as i64).map(|i| float(self.read(a[3] + 4 * i, ClTy::F32))).collect();
                self.insert(data, shape)
            }
            RtSym::TensorAllocZerosGpu => self.filled(a[0], a[1], 0.0),
            RtSym::TensorAllocOnesGpu => self.filled(a[0], a[1], 1.0),
            RtSym::TensorPrint => {
                self.print_tensor(a[0]);
                0
            }
            RtSym::TensorFree | RtSym::TensorRelease => {
                self.tensors.remove(&a[0]);
                0
            }
            RtSym::KernelDispatch => {
                self.dispatches += 1;
                let first = self.read(a[1], ClTy::I64);
                let n = self.data(first).len().max(1);
                let shape = self.shape(first);
                self.insert(vec![1.0; n], shape)
            }
            RtSym::KernelDispatchV2 => {
                self.dispatches += 1;
                let handles = (0..a[2]).map(|i| self.read(a[1] + 8 * i, ClTy::I64)).collect();
                let out = if a[5] == 0 { vec![] } else { self.words(a[5], a[6]) };
                let uniforms = (0..a[9] / 4).map(|i| self.read(a[8] + 4 * i, ClTy::I32) as u32).collect();
                let launch = (a[0] as u64, handles, self.words(a[3], 3), self.words(a[4], 3), out.clone(), uniforms);
                self.launches.push(launch);
                let n: usize = out.iter().product();
                self.insert(vec![1.0; n], out)
            }
            RtSym::TensorMatmul => self.matmul(a[0], a[1]),
            RtSym::TensorPermute => {
                assert_eq!(a[2], 0);
                self.transpose(a[0])
            }
            RtSym::TensorReshape => {
                let data = self.data(a[0]);
                let shape = self.words(a[1], a[2]);
                self.insert(data, shape)
            }
            RtSym::TensorLen => self.data(a[0]).len() as i64,
            RtSym::TensorNdim => self.shape(a[0]).len() as i64,
            RtSym::TensorDim => self.shape(a[0])[a[1] as usize] as i64,
            RtSym::TensorGetF32 => bits(self.data(a[0])[a[1] as usize]),
            RtSym::GpuBarrier | RtSym::TensorRetain => 0,
            RtSym::PrintCstr => {
                let t = self.text(a[0]);
                self.output.push_str(&t);
                0
            }
            RtSym::PrintF32 => {
                self.output.push_str(&format!("{}", float(a[0])));
                0
            }
            RtSym::PrintI64 => {
                self.output.push_str(&format!("{}", a[0]));
                0
            }
            RtSym::PrintBool => {
                self.output.push_str(if a[0] != 0 { "true" } else { "false" });
                0
            }
            RtSym::Malloc => self.reserve(a[0] as usize),
            RtSym::HeapFree => 0,
            RtSym::AggregateAlloc => {
                let at = self.reserve(a[0] as usize);
                self.boxes.insert(at, RefCount::aggregate_alloc());
                self.write(at, ClTy::I64, 1);
                at
            }
            RtSym::AggregateRetain => {
                let b = self.boxes.get_mut(&a[0]).expect("live box");
                b.aggregate_retain();
                let n = b.count as i64;
                self.write(a[0], ClTy::I64, n);
                0
            }
            RtSym::AggregateRelease => {
                let b = self.boxes.get_mut(&a[0]).expect("live box");
                let last = b.aggregate_release();
                let n = b.count as i64;
                self.write(a[0], ClTy::I64, n);
                if last {
                    self.boxes.remove(&a[0]);
                }
                0
            }
            RtSym::ListRelease => {
                let b = self.boxes.get_mut(&a[0]).expect("live box");
                let before = b.list_release();
                let n = b.count as i64;
                self.write(a[0], ClTy::I64, n);
                if before == 1 {
                    self.boxes.remove(&a[0]);
                }
                before as i64
            }
            RtSym::TapeRecordBinop | RtSym::TapeRecordUnary | RtSym::TapeRecordReduce => {
                self.recorded.push((a[0], a[1..].to_vec()));
                0
            }
            RtSym::TapeRegisterLeaf => {
                self.leaves.push(a[0]);
                0
            }
            RtSym::TapePause => {
                self.paused += 1;
                0
            }
            RtSym::TapeResume => {
                self.paused -= 1;
                0
            }
            RtSym::TapeZeroGrad => {
                let hs = self.words(a[0], a[1]);
                self.zeroed.extend(hs.iter().map(|h| *h as i64));
                0
            }
            RtSym::Powf => bits(float(a[0]).powf(float(a[1]))),
            RtSym::StrBox => a[0],
            RtSym::PrintStr => {
                let t = self.text(a[0]);
                self.output.push_str(&t);
                0
            }
            other => panic!("unexpected call of {}", other.name()),
        }
    }

    fn arith(op: Arith, ty: ClTy, l: i64, r: i64) -> i64 {
        match op {
            Arith::Iadd => narrow(ty, l.wrapping_add(r)),
            Arith::Isub => narrow(ty, l.wrapping_sub(r)),
            Arith::Imul => narrow(ty, l.wrapping_mul(r)),
            Arith::Sdiv => narrow(ty, l / r),
            Arith::Fadd => bits(float(l) + float(r)),
            Arith::Fsub => bits(float(l) - float(r)),
            Arith::Fmul => bits(float(l) * float(r)),
            Arith::Fdiv => bits(float(l) / float(r)),
            Arith::Band => l & r,
            Arith::Bor => l | r,
            Arith::Bxor => l ^ r,
        }
    }

    fn call(&mut self, index: usize, args: Vec<i64>) -> i64 {
        let code = self.prog.fns[index].code.clone();
        let strs = self.prog.fns[index].strs.clone();
        let tys = types_of(&self.prog.fns[index]);
        let mut texts: Vec<i64> = vec![];
        for s in &strs {
            let at = self.reserve(s.len() + 1);
            self.mem[at as usize..at as usize + s.len()].copy_from_slice(s.as_bytes());
            texts.push(at);
        }
        let mut starts: HashMap<usize, usize> = HashMap::new();
        for (k, i) in code.iter().enumerate() {
            if let Inst::SwitchTo { target } = i {
                let again = starts.insert(target.0, k + 1);
                assert!(again.is_none(), "a block is filled once");
            }
        }
        let mut vals: Vec<i64> = vec![0; code.len()];
        let mut slots: HashMap<usize, i64> = HashMap::new();
        let mut passed: Vec<i64> = vec![];
        let mut pc = 0;
        for _ in 0..100_000 {
            let i = code[pc];
            let here = pc;
            pc += 1;
            match i {
                Inst::Block | Inst::SwitchTo { .. } | Inst::Seal { .. } | Inst::DeclareVar { .. } => {}
                Inst::Param { index, .. } => vals[here] = args[index],
                Inst::DefVar { var, val } => vals[var.0] = vals[val.0],
                Inst::UseVar { var } => vals[here] = vals[var.0],
                Inst::Iconst { ty, imm } => vals[here] = narrow(ty, imm),
                Inst::F32Const { bits } => vals[here] = bits as i64,
                Inst::F32FromInt { imm } => vals[here] = bits(imm as f32),
                Inst::Arith { op, lhs, rhs } => {
                    vals[here] = Machine::arith(op, tys[here].unwrap(), vals[lhs.0], vals[rhs.0])
                }
                Inst::IaddImm { val, imm } => vals[here] = vals[val.0].wrapping_add(imm),
                Inst::IntCompare { icc, lhs, rhs } => {
                    let (l, r) = (vals[lhs.0], vals[rhs.0]);
                    vals[here] = match icc {
                        IntCc::Equal => l == r,
                        IntCc::NotEqual => l != r,
                        IntCc::SignedLessThan => l < r,
                        IntCc::SignedLessThanOrEqual => l <= r,
                        IntCc::SignedGreaterThan => l > r,
                        IntCc::SignedGreaterThanOrEqual => l >= r,
                    } as i64
                }
                Inst::FloatCompare { fcc, lhs, rhs } => {
                    let (l, r) = (float(vals[lhs.0]), float(vals[rhs.0]));
                    vals[here] = match fcc {
                        FloatCc::Equal => l == r,
                        FloatCc::NotEqual => l != r,
                        FloatCc::LessThan => l < r,
                        FloatCc::LessThanOrEqual => l <= r,
                        FloatCc::GreaterThan => l > r,
                        FloatCc::GreaterThanOrEqual => l >= r,
                    } as i64
                }
                Inst::Convert { conv, val } => {
                    let v = vals[val.0];
                    vals[here] = match conv {
                        Convert::Fneg => bits(-float(v)),
                        Convert::Ineg => narrow(tys[here].unwrap(), v.wrapping_neg()),
                        Convert::Bmask8 => if v != 0 { -1 } else { 0 },
                        Convert::Sextend64 => v,
                        Convert::Ireduce32 => v as i32 as i64,
                        Convert::FcvtFromSint => bits(v as f32),
                    }
                }
                Inst::Load { ty, base, offset } => vals[here] = self.read(vals[base.0] + offset as i64, ty),
                Inst::Store { val, base, offset } => {
                    self.write(vals[base.0] + offset as i64, tys[val.0].unwrap(), vals[val.0])
                }
                Inst::Slot { size, .. } => {
                    if !slots.contains_key(&here) {
                        let at = self.reserve(size as usize);
                        slots.insert(here, at);
                    }
                }
                Inst::StackStore { val, slot, offset } => {
                    self.write(slots[&slot.0] + offset as i64, tys[val.0].unwrap(), vals[val.0])
                }
                Inst::StackAddr { slot } => vals[here] = slots[&slot.0],
                Inst::CstrAddr { entry } => vals[here] = texts[entry],
                Inst::Arg { val } => passed.push(vals[val.0]),
                Inst::Call { callee, argc } => {
                    assert_eq!(passed.len(), argc);
                    let now: Vec<i64> = std::mem::take(&mut passed);
                    vals[here] = match callee {
                        Callee::Runtime(s) => self.runtime(s, &now),
                        Callee::Function { index, .. } => self.call(index, now),
                    }
                }
                Inst::Brif { cond, then_blk, else_blk } => {
                    pc = starts[&if vals[cond.0] != 0 { then_blk.0 } else { else_blk.0 }]
                }
                Inst::Jump { target } => pc = starts[&target.0],
                Inst::Return { val } => return vals[val.0],
                Inst::ReturnVoid => return 0,
                Inst::Trap => panic!("unreachable code was reached"),
            }
        }
        panic!("the program does not end");
    }

    fn live(&self) -> usize {
        self.tensors.len()
    }
}

fn run(p: TypedProgram) -> Result<Machine, CodegenError> {
    let mut next: u64 = 0;
    let (_registry, ids) = compile_kernels(&p, &mut next).expect("kernels compile");
    let prog = compile_program(&p, &ids)?;
    let main = prog.main;
    let mut m = Machine::new(prog);
    m.call(main, vec![]);
    Ok(m)
}

// ── Building programs ────────────────────────────────────────────────────────

fn f32_tensor() -> ResolvedTy {
    ResolvedTy::Tensor { dtype: ScalarTy::F32 }
}

fn i64_ty() -> ResolvedTy {
    ResolvedTy::Scalar(ScalarTy::I64)
}

fn f32_ty() -> ResolvedTy {
    ResolvedTy::Scalar(ScalarTy::F32)
}

fn ex(kind: TypedExprKind, ty: ResolvedTy) -> TypedExpr {
    TypedExpr { kind, ty, grad_tracked: false }
}

fn var(name: &str, ty: ResolvedTy) -> TypedExpr {
    ex(TypedExprKind::Ident(name.to_string()), ty)
}

fn t(name: &str) -> TypedExpr {
    var(name, f32_tensor())
}

fn n(name: &str) -> TypedExpr {
    var(name, i64_ty())
}

fn num(v: i64) -> TypedExpr {
    ex(TypedExprKind::Lit(Lit::Int(v)), i64_ty())
}

fn flt(v: f32) -> TypedExpr {
    let lit = FloatLit { text: format!("{v:?}"), bits: v.to_bits() };
    ex(TypedExprKind::Lit(Lit::Float(lit)), f32_ty())
}

fn text(s: &str) -> TypedExpr {
    ex(TypedExprKind::Lit(Lit::Str(s.to_string())), ResolvedTy::Str)
}

fn gpu_of(dtype: ScalarTy, vals: &[f32], shape: &[usize]) -> TypedExpr {
    let elements = vals.iter().map(|v| flt(*v)).collect();
    ex(
        TypedExprKind::TensorLiteral { dtype, elements, shape: shape.to_vec() },
        ResolvedTy::Tensor { dtype },
    )
}

fn gpu(vals: &[f32]) -> TypedExpr {
    gpu_of(ScalarTy::F32, vals, &[vals.len()])
}

fn bin(op: BinOp, l: TypedExpr, r: TypedExpr, ty: ResolvedTy) -> TypedExpr {
    ex(TypedExprKind::BinOp { op, lhs: Box::new(l), rhs: Box::new(r) }, ty)
}

fn call(name: &str, args: Vec<TypedExpr>, ty: ResolvedTy) -> TypedExpr {
    ex(TypedExprKind::Call { callee: name.to_string(), args }, ty)
}

fn kcall(name: &str, args: Vec<TypedExpr>) -> TypedExpr {
    ex(TypedExprKind::KernelCall { callee: name.to_string(), args }, f32_tensor())
}

fn field(base: TypedExpr, name: &str, ty: ResolvedTy) -> TypedExpr {
    ex(TypedExprKind::FieldAccess { base: Box::new(base), field: name.to_string() }, ty)
}

fn at(base: TypedExpr, i: TypedExpr, ty: ResolvedTy) -> TypedExpr {
    ex(TypedExprKind::Index { base: Box::new(base), indices: vec![i] }, ty)
}

fn bind(name: &str, e: TypedExpr) -> TypedStmt {
    TypedStmt::Let { name: name.to_string(), expr: e }
}

fn run_expr(e: TypedExpr) -> TypedStmt {
    TypedStmt::Expr(e)
}

fn print(args: Vec<TypedExpr>) -> TypedStmt {
    run_expr(call("print", args, ResolvedTy::Unit))
}

fn println(args: Vec<TypedExpr>) -> TypedStmt {
    run_expr(call("println", args, ResolvedTy::Unit))
}

fn ret(e: TypedExpr) -> TypedStmt {
    TypedStmt::Return { expr: e }
}

fn drop_t(name: &str) -> TypedStmt {
    TypedStmt::Drop { name: name.to_string() }
}

fn set(name: &str, e: TypedExpr) -> TypedStmt {
    TypedStmt::Assign { target: TypedAssignTarget::Ident(name.to_string()), expr: e }
}

fn when(condition: TypedExpr, then_body: Vec<TypedStmt>) -> TypedStmt {
    TypedStmt::If { condition, then_body, else_body: None }
}

fn each(var: &str, end: i64, body: Vec<TypedStmt>) -> TypedStmt {
    TypedStmt::For { var: var.to_string(), start: num(0), end: num(end), body }
}

fn cond(op: BinOp, l: TypedExpr, r: TypedExpr) -> TypedExpr {
    bin(op, l, r, ResolvedTy::Bool)
}

fn len_of(name: &str) -> TypedExpr {
    field(t(name), "len", i64_ty())
}

fn fun(name: &str, params: Vec<(&str, ResolvedTy)>, return_ty: ResolvedTy, body: Vec<TypedStmt>) -> TypedFn {
    let params = params.into_iter().map(|(n, ty)| TypedParam { name: n.to_string(), ty }).collect();
    TypedFn { name: name.to_string(), params, return_ty, body }
}

fn main_fn(body: Vec<TypedStmt>) -> TypedFn {
    fun("main", vec![], ResolvedTy::Unit, body)
}

fn two_tensor_kernel(name: &str) -> TypedKernel {
    let params = vec![
        TypedParam { name: "a".to_string(), ty: f32_tensor() },
        TypedParam { name: "b".to_string(), ty: f32_tensor() },
    ];
    TypedKernel {
        name: name.to_string(),
        params,
        return_ty: f32_tensor(),
        body: vec![ret(bin(BinOp::Add, t("a"), t("b"), f32_tensor()))],
        is_implicit_map: true,
    }
}

/// The library function behind an element-wise operator.
fn broadcast(op: &str) -> TypedFn {
    let body = vec![ret(kcall(&format!("malus_{op}"), vec![t("a"), t("b")]))];
    fun(
        &format!("__broadcast_{op}_fwd"),
        vec![("a", f32_tensor()), ("b", f32_tensor())],
        f32_tensor(),
        body,
    )
}

/// The library function behind `transpose`.
fn transpose_fwd() -> TypedFn {
    let body = vec![ret(call("permute", vec![t("x")], f32_tensor()))];
    fun("__transpose_2d_fwd", vec![("x", f32_tensor())], f32_tensor(), body)
}

/// The library function behind `sum`.
fn sum_fwd() -> TypedFn {
    let total = ex(
        TypedExprKind::TensorLiteral {
            dtype: ScalarTy::F32,
            elements: vec![var("s", f32_ty())],
            shape: vec![1],
        },
        f32_tensor(),
    );
    let body = vec![
        bind("s", flt(0.0)),
        TypedStmt::For {
            var: "i".to_string(),
            start: num(0),
            end: len_of("x"),
            body: vec![set("s", bin(BinOp::Add, var("s", f32_ty()), at(t("x"), n("i"), f32_ty()), f32_ty()))],
        },
        ret(total),
    ];
    fun("__reduce_all_sum_fwd", vec![("x", f32_tensor())], f32_tensor(), body)
}

fn program(fns: Vec<TypedFn>) -> TypedProgram {
    TypedProgram { fns, kernels: vec![] }
}

fn with_kernel(fns: Vec<TypedFn>, kernel: &str) -> TypedProgram {
    TypedProgram { fns, kernels: vec![two_tensor_kernel(kernel)] }
}

fn run_main(body: Vec<TypedStmt>) -> Machine {
    run(program(vec![main_fn(body)])).expect("should compile and run")
}

fn ones(dims: &[i64]) -> TypedExpr {
    call("ones", dims.iter().map(|d| num(*d)).collect(), f32_tensor())
}

// ── Tensor alloc, print, and free ────────────────────────────────────────────

#[test]
fn test_tensor_alloc_and_free() {
    let m = run_main(vec![bind("a", gpu(&[1.0, 2.0, 3.0])), print(vec![t("a")]), drop_t("a")]);
    assert_eq!(m.output, "[1, 2, 3]");
    assert_eq!(m.live(), 0);
}

#[test]
fn test_tensor_alloc_stores_data() {
    let make = fun("make", vec![], f32_tensor(), vec![bind("a", gpu(&[10.0, 20.0, 30.0])), ret(t("a"))]);
    let main = main_fn(vec![bind("x", call("make", vec![], f32_tensor())), print(vec![t("x")]), drop_t("x")]);
    let m = run(program(vec![make, main])).expect("should compile and run");
    assert_eq!(m.output, "[10, 20, 30]");
}

#[test]
fn test_kernel_dispatch_returns_handle() {
    let main = main_fn(vec![
        bind("a", gpu(&[1.0, 2.0, 3.0, 4.0])),
        bind("b", gpu(&[5.0, 6.0, 7.0, 8.0])),
        bind("c", kcall("add", vec![t("a"), t("b")])),
        drop_t("a"),
        drop_t("b"),
        print(vec![t("c")]),
        drop_t("c"),
    ]);
    let m = run(with_kernel(vec![main], "add")).expect("add_tensors.ml flow should compile and run without panic");
    assert_eq!(m.dispatches, 1);
    assert_eq!(m.live(), 0);
}

#[test]
fn test_scalar_add() {
    let i32_ty = || ResolvedTy::Scalar(ScalarTy::I32);
    let double = fun(
        "double",
        vec![("x", i32_ty())],
        i32_ty(),
        vec![ret(bin(BinOp::Add, var("x", i32_ty()), var("x", i32_ty()), i32_ty()))],
    );
    let main = main_fn(vec![bind("a", gpu(&[1.0])), print(vec![t("a")]), drop_t("a")]);
    run(program(vec![double, main])).expect("fn-to-fn call with scalar arithmetic should work");
}

#[test]
fn test_fn_to_fn_call() {
    let make = fun("make_tensor", vec![], f32_tensor(), vec![bind("a", gpu(&[42.0, 43.0])), ret(t("a"))]);
    let main = main_fn(vec![bind("t", call("make_tensor", vec![], f32_tensor())), print(vec![t("t")]), drop_t("t")]);
    let m = run(program(vec![make, main])).expect("fn-to-fn call should compile and run");
    assert_eq!(m.output, "[42, 43]");
}

#[test]
fn test_ctmm_drop_and_barrier() {
    let main = main_fn(vec![
        bind("a", gpu(&[1.0, 2.0])),
        bind("b", gpu(&[3.0, 4.0])),
        bind("c", kcall("dispatch", vec![t("a"), t("b")])),
        TypedStmt::GpuBarrier,
        drop_t("a"),
        drop_t("b"),
        print(vec![t("c")]),
        drop_t("c"),
    ]);
    run(with_kernel(vec![main], "dispatch")).expect("CTMM drop and barrier should execute without panic");
}

// ── print / println format string codegen ────────────────────────────────────

#[test]
fn test_print_string_literal() {
    assert_eq!(run_main(vec![print(vec![text("hello")])]).output, "hello");
}

#[test]
fn test_println_string_literal() {
    assert_eq!(run_main(vec![println(vec![text("hello")])]).output, "hello\n");
}

#[test]
fn test_println_format_string() {
    let m = run_main(vec![println(vec![text("{} + {} = {}"), flt(1.0), flt(2.0), flt(3.0)])]);
    assert_eq!(m.output, "1 + 2 = 3\n");
}

#[test]
fn test_println_single_value() {
    assert_eq!(run_main(vec![println(vec![num(42)])]).output, "42\n");
}

#[test]
fn test_println_no_args() {
    assert_eq!(run_main(vec![println(vec![])]).output, "\n");
}

// ── No main → CodegenError::NoMainFunction ───────────────────────────────────

#[test]
fn test_no_main_returns_error() {
    let result = run(program(vec![fun("helper", vec![], ResolvedTy::Unit, vec![])]));
    assert!(matches!(result, Err(CodegenError::NoMainFunction)));
}

// ── fn-body tensor operators dispatch to kernels ─────────────────────────────

#[test]
fn test_fn_body_tensor_add_dispatches_once() {
    let main = main_fn(vec![
        bind("a", gpu(&[1.0, 2.0, 3.0, 4.0])),
        bind("b", gpu(&[5.0, 6.0, 7.0, 8.0])),
        bind("c", bin(BinOp::Add, t("a"), t("b"), f32_tensor())),
        print(vec![t("c")]),
    ]);
    let m = run(program(vec![broadcast("add"), main])).expect("fn-body tensor add should compile and run");
    assert_eq!(m.dispatches, 1, "a + b in fn body should dispatch one builtin kernel");
}

#[test]
fn test_chained_binops_dispatch_twice() {
    let bc = bin(BinOp::Mul, t("b"), t("c"), f32_tensor());
    let main = main_fn(vec![
        bind("a", gpu(&[1.0, 2.0])),
        bind("b", gpu(&[3.0, 4.0])),
        bind("c", gpu(&[5.0, 6.0])),
        bind("r", bin(BinOp::Add, t("a"), bc, f32_tensor())),
        print(vec![t("r")]),
    ]);
    let m = run(program(vec![broadcast("add"), broadcast("mul"), main]))
        .expect("chained fn-body BinOps should compile and run");
    assert_eq!(m.dispatches, 2, "a + b * c should dispatch two builtin kernels");
}

#[test]
fn test_mixed_builtin_and_user_kernel_dispatch() {
    let main = main_fn(vec![
        bind("a", gpu(&[1.0, 2.0])),
        bind("b", gpu(&[3.0, 4.0])),
        bind("c", kcall("add", vec![t("a"), t("b")])),
        bind("d", bin(BinOp::Add, t("c"), t("a"), f32_tensor())),
        print(vec![t("d")]),
    ]);
    let m = run(with_kernel(vec![broadcast("add"), main], "add"))
        .expect("mixed user kernel + builtin should compile and run");
    assert_eq!(m.dispatches, 2, "user kernel + builtin add should dispatch twice");
}

#[test]
fn test_non_f32_tensor_binop_rejected() {
    let half = || ResolvedTy::Tensor { dtype: ScalarTy::F16 };
    let add = fun(
        "add",
        vec![("a", half()), ("b", half())],
        half(),
        vec![ret(bin(BinOp::Add, var("a", half()), var("b", half()), half()))],
    );
    let main = main_fn(vec![
        bind("a", gpu_of(ScalarTy::F16, &[1.0, 2.0], &[2])),
        bind("b", gpu_of(ScalarTy::F16, &[3.0, 4.0], &[2])),
        bind("c", call("add", vec![var("a", half()), var("b", half())], half())),
        print(vec![var("c", half())]),
    ]);
    let result = run(program(vec![add, main]));
    assert!(
        matches!(result, Err(CodegenError::UnsupportedExpr(_))),
        "non-f32 tensor BinOp should be rejected"
    );
}

// ── zeros / ones ─────────────────────────────────────────────────────────────

#[test]
fn test_zeros_compiles_and_runs() {
    let m = run_main(vec![
        bind("a", call("zeros", vec![num(2), num(3)], f32_tensor())),
        println(vec![text("zeros: {}"), t("a")]),
    ]);
    assert_eq!(m.output, "zeros: [0, 0, 0, 0, 0, 0]\n");
}

#[test]
fn test_ones_compiles_and_runs() {
    let m = run_main(vec![bind("a", ones(&[3, 4])), println(vec![text("ones: {}"), t("a")])]);
    assert_eq!(m.shape(1), vec![3, 4]);
    assert_eq!(m.output, "ones: [1, 1, 1, 1, 1, 1, 1, 1, 1, 1, 1, 1]\n");
}

// ── unary builtins dispatched as GPU kernels ─────────────────────────────────

fn unary(name: &str, arg: &str) -> TypedExpr {
    call(name, vec![t(arg)], f32_tensor())
}

#[test]
fn test_relu_dispatches_gpu_kernel() {
    let m = run_main(vec![
        bind("a", gpu(&[1.0, 2.0, 3.0])),
        bind("b", unary("relu", "a")),
        println(vec![text("{}"), t("b")]),
    ]);
    assert_eq!(m.dispatches, 1, "relu should dispatch exactly one GPU kernel");
}

#[test]
fn test_exp_dispatches_gpu_kernel() {
    let m = run_main(vec![
        bind("a", gpu(&[1.0, 2.0])),
        bind("b", unary("exp", "a")),
        println(vec![text("{}"), t("b")]),
    ]);
    assert_eq!(m.dispatches, 1, "exp should dispatch exactly one GPU kernel");
}

#[test]
fn test_all_unary_builtins_compile() {
    let m = run_main(vec![
        bind("a", gpu(&[0.5, 1.0, 2.0])),
        bind("r", unary("relu", "a")),
        bind("s", unary("sigmoid", "a")),
        bind("t", unary("tanh", "a")),
        bind("e", unary("exp", "a")),
        bind("l", unary("log", "a")),
        bind("q", unary("sqrt", "a")),
        bind("b", unary("abs", "a")),
        println(vec![text("{}"), t("r")]),
    ]);
    assert_eq!(m.dispatches, 7, "7 unary builtins should dispatch 7 GPU kernels");
}

// ── matmul, transpose, sum, len ──────────────────────────────────────────────

fn matmul(a: &str, b: &str) -> TypedExpr {
    bin(BinOp::Matmul, t(a), t(b), f32_tensor())
}

#[test]
fn test_matmul_compiles_and_runs() {
    let m = run_main(vec![
        bind("a", ones(&[2, 3])),
        bind("b", ones(&[3, 4])),
        bind("c", matmul("a", "b")),
        println(vec![text("{}"), t("c")]),
    ]);
    assert_eq!(m.output, "[3, 3, 3, 3, 3, 3, 3, 3]\n");
}

#[test]
fn test_matmul_correct_values() {
    let main = main_fn(vec![
        bind("a", ones(&[2, 3])),
        bind("b", ones(&[3, 4])),
        bind("c", matmul("a", "b")),
        bind("s", call("sum", vec![t("c")], f32_tensor())),
        println(vec![text("{}"), t("s")]),
    ]);
    let m = run(program(vec![sum_fwd(), main])).expect("matmul with sum should work");
    assert_eq!(m.output, "[24]\n");
}

#[test]
fn test_transpose_compiles_and_runs() {
    let main = main_fn(vec![
        bind("a", ones(&[3, 4])),
        bind("b", call("transpose", vec![t("a")], f32_tensor())),
        println(vec![text("{}"), t("b")]),
    ]);
    let m = run(program(vec![transpose_fwd(), main])).expect("transpose should compile and run");
    assert_eq!(m.shape(2), vec![4, 3]);
}

#[test]
fn test_sum_compiles_and_runs() {
    let main = main_fn(vec![
        bind("a", ones(&[2, 4])),
        bind("s", call("sum", vec![t("a")], f32_tensor())),
        println(vec![text("{}"), t("s")]),
    ]);
    let m = run(program(vec![sum_fwd(), main])).expect("sum should compile and run");
    assert_eq!(m.output, "[8]\n");
}

#[test]
fn test_tensor_len_compiles_and_runs() {
    let m = run_main(vec![bind("a", ones(&[3, 4])), bind("n", len_of("a")), println(vec![text("{}"), n("n")])]);
    assert_eq!(m.output, "12\n");
}

#[test]
fn test_mlp_forward_done_when() {
    let forward = fun(
        "forward",
        vec![("x", f32_tensor()), ("w1", f32_tensor()), ("w2", f32_tensor())],
        f32_tensor(),
        vec![bind("h", call("relu", vec![matmul("x", "w1")], f32_tensor())), ret(matmul("h", "w2"))],
    );
    let main = main_fn(vec![
        bind("x", ones(&[2, 3])),
        bind("w1", ones(&[3, 4])),
        bind("w2", ones(&[4, 2])),
        bind("out", call("forward", vec![t("x"), t("w1"), t("w2")], f32_tensor())),
        println(vec![text("forward output: {}"), t("out")]),
        bind("s", call("sum", vec![t("out")], f32_tensor())),
        println(vec![text("sum: {}"), t("s")]),
        bind("wt", call("transpose", vec![t("w1")], f32_tensor())),
        println(vec![text("transpose done")]),
        println(vec![text("exp result: {}"), unary("exp", "x")]),
    ]);
    let m = run(program(vec![sum_fwd(), transpose_fwd(), forward, main]))
        .expect("done-when MLP forward should compile and run");
    assert_eq!(m.dispatches, 2);
    assert!(m.output.contains("sum: [16]\ntranspose done\nexp result: ["));
}

// ── control flow ─────────────────────────────────────────────────────────────

#[test]
fn test_if_taken_branch() {
    let m = run_main(vec![
        bind("a", gpu(&[1.0, 2.0])),
        when(cond(BinOp::Gt, len_of("a"), num(0)), vec![print(vec![t("a")])]),
        drop_t("a"),
    ]);
    assert_eq!(m.live(), 0, "a must be freed after the if stmt");
    assert_eq!(m.output, "[1, 2]");
}

#[test]
fn test_if_not_taken_no_crash() {
    let m = run_main(vec![
        bind("a", gpu(&[1.0, 2.0])),
        when(cond(BinOp::Gt, len_of("a"), num(5)), vec![print(vec![t("a")])]),
        drop_t("a"),
    ]);
    assert_eq!(m.live(), 0, "a must be freed even when branch is not taken");
    assert_eq!(m.output, "");
}

#[test]
fn test_if_else() {
    let m = run_main(vec![
        bind("a", gpu(&[1.0, 2.0])),
        TypedStmt::If {
            condition: cond(BinOp::Gt, len_of("a"), num(5)),
            then_body: vec![print(vec![t("a")])],
            else_body: Some(vec![print(vec![t("a")])]),
        },
        drop_t("a"),
    ]);
    assert_eq!(m.live(), 0, "a must be freed after if/else");
    assert_eq!(m.output, "[1, 2]");
}

#[test]
fn test_for_loop_n_iterations() {
    let main = main_fn(vec![
        bind("a", gpu(&[1.0, 2.0])),
        bind("b", gpu(&[3.0, 4.0])),
        each("i", 4, vec![bind("out", kcall("add", vec![t("a"), t("b")])), print(vec![t("out")]), drop_t("out")]),
        drop_t("a"),
        drop_t("b"),
    ]);
    let m = run(with_kernel(vec![main], "add")).expect("for loop should compile and run");
    assert_eq!(m.live(), 0, "no tensors should leak after for loop");
    assert_eq!(m.dispatches, 4, "kernel should dispatch once per iteration");
}

#[test]
fn test_for_loop_zero_iterations() {
    let m = run_main(vec![bind("a", gpu(&[1.0])), each("i", 0, vec![print(vec![t("a")])]), drop_t("a")]);
    assert_eq!(m.live(), 0, "a must be freed even with zero iterations");
    assert_eq!(m.output, "");
}

#[test]
fn test_while_loop() {
    let m = run_main(vec![
        bind("a", gpu(&[1.0])),
        TypedStmt::While {
            condition: cond(BinOp::Gt, len_of("a"), num(5)),
            body: vec![print(vec![t("a")])],
        },
        drop_t("a"),
    ]);
    assert_eq!(m.live(), 0, "a must be freed after while loop");
}

#[test]
fn test_let_mut_in_loop() {
    let main = main_fn(vec![
        bind("acc", gpu(&[0.0, 0.0])),
        bind("delta", gpu(&[1.0, 2.0])),
        each(
            "i",
            3,
            vec![
                bind("old", t("acc")),
                set("acc", kcall("add", vec![t("acc"), t("delta")])),
                drop_t("old"),
            ],
        ),
        drop_t("delta"),
        print(vec![t("acc")]),
        drop_t("acc"),
    ]);
    let m = run(with_kernel(vec![main], "add")).expect("let mut accumulator in loop should compile and run");
    assert_eq!(m.live(), 0, "acc and delta must be freed after loop");
}

// ── 2-D nested tensor literals ───────────────────────────────────────────────

#[test]
fn test_2d_tensor_literal_compiles() {
    let x = gpu_of(ScalarTy::F32, &[1.0, 2.0, 3.0, 4.0], &[2, 2]);
    let m = run_main(vec![bind("x", x), print(vec![t("x")]), drop_t("x")]);
    assert_eq!(m.live(), 0, "2-D tensor should be freed");
}

#[test]
fn test_2d_tensor_shape_in_alloc() {
    let x = || gpu_of(ScalarTy::F32, &[1.0, 2.0, 3.0, 4.0, 5.0, 6.0], &[2, 3]);
    let m = run_main(vec![bind("x", x()), print(vec![t("x")]), drop_t("x")]);
    assert_eq!(m.live(), 0);
    assert_eq!(run_main(vec![bind("x", x())]).shape(1), vec![2, 3]);
}

// ── fixed arrays ─────────────────────────────────────────────────────────────

fn array(elem: ResolvedTy, elements: Vec<TypedExpr>) -> TypedExpr {
    let len = elements.len();
    ex(TypedExprKind::ArrayLiteral { elements }, ResolvedTy::Array { elem: Box::new(elem), len })
}

fn array_var(name: &str, elem: ResolvedTy, len: usize) -> TypedExpr {
    var(name, ResolvedTy::Array { elem: Box::new(elem), len })
}

#[test]
fn test_array_literal_and_index() {
    let xs = || array_var("xs", i64_ty(), 3);
    let m = run_main(vec![
        bind("xs", array(i64_ty(), vec![num(10), num(20), num(30)])),
        bind("v0", at(xs(), num(0), i64_ty())),
        bind("v1", at(xs(), num(1), i64_ty())),
        bind("v2", at(xs(), num(2), i64_ty())),
        println(vec![text("vals: {} {} {}"), n("v0"), n("v1"), n("v2")]),
    ]);
    assert_eq!(m.output, "vals: 10 20 30\n");
}

#[test]
fn test_for_in_array() {
    let m = run_main(vec![
        bind("xs", array(i64_ty(), vec![num(1), num(2), num(3)])),
        bind("sum", num(0)),
        TypedStmt::ForIn {
            var: "x".to_string(),
            iter: array_var("xs", i64_ty(), 3),
            body: vec![set("sum", bin(BinOp::Add, n("sum"), n("x"), i64_ty()))],
        },
        println(vec![text("sum={}"), n("sum")]),
    ]);
    assert_eq!(m.output, "sum=6\n");
}

fn drop_array(name: &str, len: usize) -> TypedStmt {
    TypedStmt::DropArray { name: name.to_string(), elem_ty: f32_tensor(), len }
}

#[test]
fn test_array_of_tensors_no_leak() {
    let m = run_main(vec![
        bind("ts", array(f32_tensor(), vec![gpu(&[1.0]), gpu(&[2.0]), gpu(&[3.0])])),
        print(vec![at(array_var("ts", f32_tensor(), 3), num(0), f32_tensor())]),
        drop_array("ts", 3),
    ]);
    assert_eq!(m.live(), 0, "tensors in array must be freed by DropArray");
    assert_eq!(m.output, "[1]");
}

#[test]
fn test_for_in_tensor_array_no_leak() {
    let m = run_main(vec![
        bind("ts", array(f32_tensor(), vec![gpu(&[1.0]), gpu(&[2.0])])),
        TypedStmt::ForIn {
            var: "t".to_string(),
            iter: array_var("ts", f32_tensor(), 2),
            body: vec![print(vec![t("t")])],
        },
        drop_array("ts", 2),
    ]);
    assert_eq!(m.live(), 0, "no tensors should leak after for-in over tensor array");
    assert_eq!(m.output, "[1][2]");
}

#[test]
fn test_m9_done_when() {
    let main = main_fn(vec![
        bind("x", ones(&[2, 3])),
        bind("w", ones(&[3, 2])),
        each(
            "i",
            5,
            vec![
                bind("out", matmul("x", "w")),
                bind("s", call("sum", vec![t("out")], f32_tensor())),
                drop_t("out"),
                println(vec![text("step {}: sum = {}"), n("i"), t("s")]),
                drop_t("s"),
                when(cond(BinOp::Gt, n("i"), num(2)), vec![println(vec![text("  past halfway")])]),
            ],
        ),
        drop_t("x"),
        drop_t("w"),
        println(vec![text("done")]),
    ]);
    let m = run(program(vec![sum_fwd(), main])).expect("M9 done-when should compile and run");
    assert_eq!(m.live(), 0, "no tensors should leak in done-when program");
    assert!(m.output.starts_with("step 0: sum = [12]\n"));
    assert!(m.output.ends_with("step 4: sum = [12]\n  past halfway\ndone\n"));
}

// ── break / continue ─────────────────────────────────────────────────────────

#[test]
fn test_break_exits_loop() {
    let m = run_main(vec![
        bind("acc", num(0)),
        each(
            "i",
            10,
            vec![
                when(cond(BinOp::Eq, n("i"), num(7)), vec![TypedStmt::Break]),
                when(cond(BinOp::Eq, n("i"), num(3)), vec![TypedStmt::Continue]),
                set("acc", bin(BinOp::Add, n("acc"), n("i"), i64_ty())),
            ],
        ),
        println(vec![text("acc: {}"), n("acc")]),
    ]);
    assert_eq!(m.output, "acc: 18\n");
}

#[test]
fn test_break_drops_loop_body_tensor() {
    let m = run_main(vec![
        bind("i", num(0)),
        each(
            "i",
            5,
            vec![
                bind("t", gpu(&[1.0, 2.0])),
                when(cond(BinOp::Eq, n("i"), num(2)), vec![drop_t("t"), TypedStmt::Break]),
                print(vec![t("t")]),
                drop_t("t"),
            ],
        ),
    ]);
    assert_eq!(m.live(), 0, "tensor created before break must not leak");
    assert_eq!(m.output, "[1, 2][1, 2]");
}

#[test]
fn test_continue_drops_loop_body_tensor() {
    let m = run_main(vec![each(
        "i",
        5,
        vec![
            bind("t", gpu(&[1.0, 2.0])),
            when(cond(BinOp::Eq, n("i"), num(2)), vec![drop_t("t"), TypedStmt::Continue]),
            print(vec![t("t")]),
            drop_t("t"),
        ],
    )]);
    assert_eq!(m.live(), 0, "tensor created before continue must not leak");
    assert_eq!(m.output, "[1, 2][1, 2][1, 2][1, 2]");
}

#[test]
fn test_break_inside_if_inside_loop() {
    let m = run_main(vec![each(
        "i",
        10,
        vec![
            bind("t", gpu(&[1.0])),
            when(
                cond(BinOp::Eq, n("i"), num(3)),
                vec![when(cond(BinOp::Gt, n("i"), num(2)), vec![drop_t("t"), TypedStmt::Break])],
            ),
            print(vec![t("t")]),
            drop_t("t"),
        ],
    )]);
    assert_eq!(m.live(), 0, "no tensor leak on nested break");
    assert_eq!(m.output, "[1][1][1]");
}

#[test]
fn test_while_break() {
    let m = run_main(vec![
        bind("n", num(0)),
        TypedStmt::While {
            condition: cond(BinOp::Lt, n("n"), num(10)),
            body: vec![
                bind("t", gpu(&[1.0])),
                when(cond(BinOp::Eq, n("n"), num(4)), vec![drop_t("t"), TypedStmt::Break]),
                print(vec![t("t")]),
                drop_t("t"),
                set("n", bin(BinOp::Add, n("n"), num(1), i64_ty())),
            ],
        },
    ]);
    assert_eq!(m.live(), 0, "no tensor leak on while break");
    assert_eq!(m.output, "[1][1][1][1]");
}

// ── enum payloads ────────────────────────────────────────────────────────────

fn wrapper(payload: ResolvedTy) -> ResolvedTy {
    ResolvedTy::Enum {
        name: "Wrapper".to_string(),
        variants: vec![
            ("Some".to_string(), vec![("val".to_string(), payload)]),
            ("Empty".to_string(), vec![]),
        ],
    }
}

fn some(payload: TypedExpr, ty: ResolvedTy) -> TypedExpr {
    ex(TypedExprKind::EnumInit { variant_index: 0, payload: vec![payload], max_payload_slots: 1 }, wrapper(ty))
}

fn empty(ty: ResolvedTy) -> TypedExpr {
    ex(TypedExprKind::EnumInit { variant_index: 1, payload: vec![], max_payload_slots: 1 }, wrapper(ty))
}

fn match_w(binding: &str, ty: ResolvedTy, scrutinee: TypedExpr, some_body: Vec<TypedStmt>, empty_body: Vec<TypedStmt>) -> TypedStmt {
    TypedStmt::Match {
        scrutinee,
        arms: vec![
            TypedMatchArm { variant_index: 0, bindings: vec![(binding.to_string(), ty)], body: some_body },
            TypedMatchArm { variant_index: 1, bindings: vec![], body: empty_body },
        ],
    }
}

fn drop_w(ty: ResolvedTy) -> TypedStmt {
    TypedStmt::DropEnum {
        name: "w".to_string(),
        variants: vec![DropVariant { tag: 0, fields: vec![(0, ty)] }, DropVariant { tag: 1, fields: vec![] }],
    }
}

fn make_wrapper(vals: &[f32]) -> TypedFn {
    fun("make", vec![], wrapper(f32_tensor()), vec![ret(some(gpu(vals), f32_tensor()))])
}

#[test]
fn test_match_payload_stays_local() {
    let main = main_fn(vec![
        bind("w", call("make", vec![], wrapper(f32_tensor()))),
        match_w(
            "val",
            f32_tensor(),
            var("w", wrapper(f32_tensor())),
            vec![print(vec![t("val")])],
            vec![println(vec![text("empty")])],
        ),
        drop_w(f32_tensor()),
    ]);
    let m = run(program(vec![make_wrapper(&[1.0, 2.0]), main])).expect("local match payload should compile and run");
    assert_eq!(m.live(), 0, "no tensor leak for local payload use");
    assert_eq!(m.boxes.len(), 0);
    assert_eq!(m.output, "[1, 2]");
}

#[test]
fn test_match_payload_escapes_to_outer_binding() {
    let main = main_fn(vec![
        bind("w", call("make", vec![], wrapper(f32_tensor()))),
        bind("escaped", gpu(&[0.0])),
        match_w(
            "val",
            f32_tensor(),
            var("w", wrapper(f32_tensor())),
            vec![
                TypedStmt::Retain { name: "val".to_string() },
                drop_t("escaped"),
                set("escaped", t("val")),
            ],
            vec![drop_t("escaped"), set("escaped", gpu(&[0.0]))],
        ),
        print(vec![t("escaped")]),
        drop_t("escaped"),
        drop_w(f32_tensor()),
    ]);
    let m = run(program(vec![make_wrapper(&[3.0, 4.0]), main])).expect("escaped payload should compile and run");
    assert_eq!(m.live(), 0, "no tensor leak or double-free on escape");
    assert_eq!(m.output, "[3, 4]");
}

#[test]
fn test_match_empty_variant_no_leak() {
    let m = run_main(vec![
        bind("w", empty(f32_tensor())),
        match_w(
            "val",
            f32_tensor(),
            var("w", wrapper(f32_tensor())),
            vec![print(vec![t("val")])],
            vec![println(vec![text("empty")])],
        ),
        drop_w(f32_tensor()),
    ]);
    assert_eq!(m.live(), 0, "no tensor leak for empty variant");
    assert_eq!(m.output, "empty\n");
}

#[test]
fn test_zero_length_tensor_alloc() {
    let m = run_main(vec![
        bind("empty", call("zeros", vec![num(0)], f32_tensor())),
        print(vec![t("empty")]),
        drop_t("empty"),
    ]);
    assert_eq!(m.live(), 0, "zero-length tensor must be freed");
    assert_eq!(m.output, "[]");
}

// ── break/continue outside a loop ────────────────────────────────────────────

#[test]
fn test_break_outside_loop_rejected() {
    let result = run(program(vec![main_fn(vec![TypedStmt::Break])]));
    assert!(matches!(result, Err(CodegenError::UnsupportedExpr(m)) if m == "break outside loop"));
}

#[test]
fn test_continue_outside_loop_rejected() {
    let result = run(program(vec![main_fn(vec![TypedStmt::Continue])]));
    assert!(matches!(result, Err(CodegenError::UnsupportedExpr(m)) if m == "continue outside loop"));
}

#[test]
fn test_break_inside_if_outside_loop_rejected() {
    let main = main_fn(vec![
        bind("a", gpu(&[1.0])),
        when(cond(BinOp::Gt, len_of("a"), num(0)), vec![TypedStmt::Break]),
    ]);
    assert!(run(program(vec![main])).is_err(), "break inside if but outside loop should be rejected");
}

// ── struct payloads ──────────────────────────────────────────────────────────

fn point() -> ResolvedTy {
    ResolvedTy::Struct { name: "Point".to_string(), fields: vec![("x".to_string(), f32_ty())] }
}

fn point_at(x: f32) -> TypedExpr {
    ex(TypedExprKind::StructInit { name: "Point".to_string(), fields: vec![flt(x)] }, point())
}

#[test]
fn test_struct_payload_escape_now_allowed() {
    let m = run_main(vec![
        bind("w", some(point_at(1.0), point())),
        match_w(
            "pt",
            point(),
            var("w", wrapper(point())),
            vec![
                bind("escaped", var("pt", point())),
                TypedStmt::RetainAgg { name: "escaped".to_string() },
                TypedStmt::DropStruct { name: "escaped".to_string(), droppable_fields: vec![] },
            ],
            vec![println(vec![text("empty")])],
        ),
        drop_w(point()),
    ]);
    assert_eq!(m.boxes.len(), 0);
}

#[test]
fn test_struct_payload_field_read_ok() {
    let m = run_main(vec![
        bind("w", some(point_at(3.0), point())),
        match_w(
            "pt",
            point(),
            var("w", wrapper(point())),
            vec![println(vec![text("x: {}"), field(var("pt", point()), "x", f32_ty())])],
            vec![println(vec![text("empty")])],
        ),
        drop_w(point()),
    ]);
    assert_eq!(m.output, "x: 3\n");
    assert_eq!(m.boxes.len(), 0);
}

// ── variables ────────────────────────────────────────────────────────────────

fn variable(e: TypedExpr) -> TypedExpr {
    call("variable", vec![e], f32_tensor())
}

fn tensor_print(e: TypedExpr) -> TypedStmt {
    run_expr(call("tensor_print", vec![e], ResolvedTy::Unit))
}

fn release(name: &str) -> TypedStmt {
    TypedStmt::Release { name: name.to_string() }
}

fn data(name: &str) -> TypedExpr {
    field(t(name), "data", f32_tensor())
}

#[test]
fn test_variable_rc_done_when() {
    let wrap = fun("wrap", vec![("t", f32_tensor())], f32_tensor(), vec![ret(variable(t("t")))]);
    let identity = fun("identity", vec![("v", f32_tensor())], f32_tensor(), vec![ret(t("v"))]);
    let main = main_fn(vec![
        bind("a", variable(ones(&[2, 2]))),
        bind("b", call("identity", vec![t("a")], f32_tensor())),
        bind("c", variable(call("zeros", vec![num(3), num(3)], f32_tensor()))),
        tensor_print(data("b")),
        tensor_print(data("c")),
        release("b"),
        release("c"),
    ]);
    let m = run(program(vec![wrap, identity, main])).expect("M13 done-when should compile and run");
    assert_eq!(m.live(), 0, "Variable done-when: no tensor leaks");
    assert_eq!(m.leaves, vec![1, 2]);
    assert_eq!(m.output, "[1, 1, 1, 1][0, 0, 0, 0, 0, 0, 0, 0, 0]");
}

#[test]
fn test_variable_data_let_bind_no_leak() {
    let m = run_main(vec![
        bind("t", gpu(&[1.0, 2.0, 3.0])),
        bind("v", variable(t("t"))),
        bind("d", data("v")),
        TypedStmt::Retain { name: "d".to_string() },
        release("v"),
        tensor_print(t("d")),
        release("d"),
    ]);
    assert_eq!(m.live(), 0, "no tensor leaks after .data let-bind");
}

#[test]
fn test_variable_data_inline_borrow() {
    let m = run_main(vec![
        bind("t", gpu(&[42.0])),
        bind("v", variable(t("t"))),
        tensor_print(data("v")),
        release("v"),
    ]);
    assert_eq!(m.live(), 0, "no tensor leaks after inline .data borrow");
    assert_eq!(m.output, "[42]");
}

// ── tuples ───────────────────────────────────────────────────────────────────

fn tuple(elements: Vec<TypedExpr>, tys: Vec<ResolvedTy>) -> TypedExpr {
    ex(TypedExprKind::TupleInit { elements }, ResolvedTy::Tuple(tys))
}

fn pair_ty() -> ResolvedTy {
    ResolvedTy::Tuple(vec![f32_ty(), f32_ty()])
}

fn part(base: TypedExpr, index: usize, ty: ResolvedTy) -> TypedExpr {
    ex(TypedExprKind::TupleIndex { base: Box::new(base), index }, ty)
}

fn drop_tuple(name: &str) -> TypedStmt {
    TypedStmt::DropTuple { name: name.to_string(), droppable_fields: vec![] }
}

fn let_pair(a: &str, b: &str, expr: TypedExpr) -> TypedStmt {
    TypedStmt::LetTuple { names: vec![(a.to_string(), f32_ty()), (b.to_string(), f32_ty())], expr }
}

fn fv(name: &str) -> TypedExpr {
    var(name, f32_ty())
}

#[test]
fn test_tuple_scalar_construction_and_access() {
    let m = run_main(vec![
        bind("t", tuple(vec![flt(25.0), flt(50.0)], vec![f32_ty(), f32_ty()])),
        bind("x", part(var("t", pair_ty()), 0, f32_ty())),
        bind("y", part(var("t", pair_ty()), 1, f32_ty())),
        drop_tuple("t"),
        println(vec![text("{} {}"), fv("x"), fv("y")]),
    ]);
    assert_eq!(m.output, "25 50\n");
    assert_eq!(m.boxes.len(), 0);
}

#[test]
fn test_tuple_bool_mixed() {
    let ty = || ResolvedTy::Tuple(vec![f32_ty(), ResolvedTy::Bool]);
    let yes = ex(TypedExprKind::Lit(Lit::Bool(true)), ResolvedTy::Bool);
    let m = run_main(vec![
        bind("t", tuple(vec![flt(3.14), yes], vec![f32_ty(), ResolvedTy::Bool])),
        bind("x", part(var("t", ty()), 0, f32_ty())),
        bind("b", part(var("t", ty()), 1, ResolvedTy::Bool)),
        drop_tuple("t"),
        println(vec![text("{}"), fv("x")]),
        print(vec![var("b", ResolvedTy::Bool)]),
    ]);
    assert_eq!(m.output, "3.14\ntrue");
}

#[test]
fn test_tuple_destructuring() {
    let m = run_main(vec![
        bind("t", tuple(vec![flt(10.0), flt(20.0)], vec![f32_ty(), f32_ty()])),
        let_pair("a", "b", var("t", pair_ty())),
        drop_tuple("t"),
        println(vec![text("{} {}"), fv("a"), fv("b")]),
    ]);
    assert_eq!(m.output, "10 20\n");
    assert_eq!(m.boxes.len(), 0);
}

#[test]
fn test_tuple_return() {
    let swap = fun(
        "swap",
        vec![("x", f32_ty()), ("y", f32_ty())],
        pair_ty(),
        vec![ret(tuple(vec![fv("y"), fv("x")], vec![f32_ty(), f32_ty()]))],
    );
    let main = main_fn(vec![
        let_pair("a", "b", call("swap", vec![flt(1.0), flt(2.0)], pair_ty())),
        println(vec![text("{} {}"), fv("a"), fv("b")]),
    ]);
    let m = run(program(vec![swap, main])).expect("tuple return from fn");
    assert_eq!(m.output, "2 1\n");
    assert_eq!(m.boxes.len(), 0);
}

#[test]
fn test_tuple_three_elements() {
    let ty = || ResolvedTy::Tuple(vec![f32_ty(), f32_ty(), f32_ty()]);
    let triple = fun(
        "triple",
        vec![],
        ty(),
        vec![ret(tuple(vec![flt(1.0), flt(2.0), flt(3.0)], vec![f32_ty(), f32_ty(), f32_ty()]))],
    );
    let main = main_fn(vec![
        bind("t", call("triple", vec![], ty())),
        bind("x", part(var("t", ty()), 0, f32_ty())),
        bind("y", part(var("t", ty()), 1, f32_ty())),
        bind("z", part(var("t", ty()), 2, f32_ty())),
        drop_tuple("t"),
        println(vec![text("{} {} {}"), fv("x"), fv("y"), fv("z")]),
    ]);
    let m = run(program(vec![triple, main])).expect("3-element tuple");
    assert_eq!(m.output, "1 2 3\n");
}

#[test]
fn test_tuple_let_mut_destructuring() {
    let m = run_main(vec![
        let_pair("a", "b", tuple(vec![flt(5.0), flt(10.0)], vec![f32_ty(), f32_ty()])),
        set("a", flt(99.0)),
        println(vec![text("{} {}"), fv("a"), fv("b")]),
    ]);
    assert_eq!(m.output, "99 10\n");
}

#[test]
fn test_tuple_roundtrip_parse() {
    let m = run_main(vec![
        bind("t", tuple(vec![flt(1.0), flt(2.0)], vec![f32_ty(), f32_ty()])),
        bind("x", part(var("t", pair_ty()), 0, f32_ty())),
        drop_tuple("t"),
        println(vec![text("{}"), fv("x")]),
    ]);
    assert_eq!(m.output, "1\n");
}

// ── zero_grad + re-wrap ──────────────────────────────────────────────────────

fn zero_grad(names: &[&str]) -> TypedStmt {
    run_expr(call("zero_grad", names.iter().map(|n| t(n)).collect(), ResolvedTy::Unit))
}

#[test]
fn test_zero_grad_compiles_and_runs() {
    let m = run_main(vec![
        bind("t", gpu(&[1.0, 2.0])),
        bind("v", variable(t("t"))),
        zero_grad(&["v"]),
        release("v"),
    ]);
    assert_eq!(m.live(), 0, "no leaks after zero_grad");
    assert_eq!(m.zeroed, vec![1]);
}

#[test]
fn test_zero_grad_multiple_args() {
    let m = run_main(vec![
        bind("a", gpu(&[1.0])),
        bind("b", gpu(&[2.0])),
        bind("va", variable(t("a"))),
        bind("vb", variable(t("b"))),
        zero_grad(&["va", "vb"]),
        release("va"),
        release("vb"),
    ]);
    assert_eq!(m.live(), 0, "no leaks after zero_grad with multiple args");
    assert_eq!(m.zeroed, vec![1, 2]);
}

#[test]
fn test_zero_grad_rewrap_no_leak() {
    let m = run_main(vec![
        bind("t1", gpu(&[0.5, 0.5])),
        bind("w", variable(t("t1"))),
        zero_grad(&["w"]),
        bind("t2", gpu(&[0.3, 0.3])),
        zero_grad(&["w"]),
        release("w"),
        set("w", variable(t("t2"))),
        zero_grad(&["w"]),
        release("w"),
    ]);
    assert_eq!(m.live(), 0, "no mock-tensor leaks from zero_grad + Variable re-wrap");
    assert_eq!(m.zeroed, vec![1, 1, 2]);
}

// ── further checks ───────────────────────────────────────────────────────────

fn grad(mut e: TypedExpr) -> TypedExpr {
    e.grad_tracked = true;
    e
}

#[test]
fn tracked_operations_are_recorded() {
    let main = main_fn(vec![
        bind("a", ones(&[2, 2])),
        bind("b", ones(&[2, 2])),
        bind("c", grad(matmul("a", "b"))),
        bind("d", grad(unary("relu", "c"))),
        bind("e", grad(bin(BinOp::Add, t("d"), t("a"), f32_tensor()))),
    ]);
    let m = run(program(vec![broadcast("add"), main])).unwrap();
    assert_eq!(m.recorded, vec![(0, vec![1, 2, 3]), (6, vec![3, 4]), (1, vec![4, 1, 5])]);
}

#[test]
fn scalar_operand_is_freed_after_the_dispatch() {
    let m = run_main(vec![
        bind("a", gpu(&[1.0, 2.0])),
        bind("b", bin(BinOp::Mul, t("a"), flt(0.5), f32_tensor())),
        bind("c", bin(BinOp::Sub, flt(0.5), t("a"), f32_tensor())),
    ]);
    assert_eq!(m.dispatches, 2);
    assert_eq!(m.live(), 3);
}

#[test]
fn negated_tensor_is_a_product() {
    let neg = || ex(TypedExprKind::Unary { op: UnaryOp::Neg, operand: Box::new(t("a")) }, f32_tensor());
    let half = bin(BinOp::Mul, t("a"), flt(0.5), f32_tensor());
    let m = run_main(vec![bind("a", gpu(&[1.0])), bind("h", half), bind("b", neg())]);
    assert_eq!(m.dispatches, 2);
    assert_eq!(m.live(), 3);
    let p = program(vec![main_fn(vec![bind("a", gpu(&[1.0])), bind("b", neg())])]);
    let mut next: u64 = 0;
    let (_registry, found) = compile_kernels(&p, &mut next).expect("kernels compile");
    assert_eq!(next, 0);
    let missing = compile_program(&p, &found);
    assert!(matches!(missing, Err(CodegenError::UnknownKernel { name }) if name == "malus_mul_scalar"));
}

#[test]
fn explicit_launch_passes_grid_and_uniforms() {
    let dims = |v: [i64; 3]| Box::new(array(i64_ty(), v.iter().map(|d| num(*d)).collect()));
    let launch = ex(
        TypedExprKind::KernelLaunch {
            kernel: "scale".to_string(),
            grid: dims([8, 1, 1]),
            tg: dims([4, 1, 1]),
            out_shape: Some(dims([2, 4, 0])),
            tensor_args: vec![t("a")],
            scalar_args: vec![num(5), flt(0.5)],
        },
        f32_tensor(),
    );
    let kernel = TypedKernel {
        name: "scale".to_string(),
        params: vec![TypedParam { name: "a".to_string(), ty: f32_tensor() }],
        return_ty: f32_tensor(),
        body: vec![],
        is_implicit_map: false,
    };
    let p = TypedProgram { fns: vec![main_fn(vec![bind("a", gpu(&[1.0])), bind("b", launch)])], kernels: vec![kernel] };
    let m = run(p).unwrap();
    let l = &m.launches[0];
    assert_eq!(l.1, vec![1]);
    assert_eq!(l.2, vec![8, 1, 1]);
    assert_eq!(l.3, vec![4, 1, 1]);
    assert_eq!(l.4, vec![2, 4]);
    assert_eq!(l.5, vec![5, 0.5f32.to_bits()]);
}

#[test]
fn lists_share_their_box() {
    let list_ty = || ResolvedTy::List { elem: Box::new(f32_tensor()) };
    let list = ex(TypedExprKind::ArrayLiteral { elements: vec![gpu(&[1.0]), gpu(&[2.0])] }, list_ty());
    let drop_l = |name: &str| TypedStmt::DropList { name: name.to_string(), elem_ty: f32_tensor() };
    let m = run_main(vec![
        bind("l", list),
        bind("k", var("l", list_ty())),
        TypedStmt::RetainAgg { name: "k".to_string() },
        drop_l("l"),
        println(vec![call("len", vec![var("k", list_ty())], i64_ty())]),
        print(vec![at(var("k", list_ty()), num(1), f32_tensor())]),
        drop_l("k"),
    ]);
    assert_eq!(m.output, "2\n[2]");
    assert_eq!(m.live(), 0);
    assert_eq!(m.boxes.len(), 0);
}

#[test]
fn scalar_operators_compute() {
    let b = |op: BinOp, l: f32, r: f32| print(vec![cond(op, flt(l), flt(r))]);
    let i = |op: BinOp, l: i64, r: i64| print(vec![bin(op, num(l), num(r), i64_ty())]);
    let m = run_main(vec![
        b(BinOp::Lt, 1.0, 2.0),
        b(BinOp::GtEq, 1.0, 2.0),
        b(BinOp::NotEq, 1.0, 2.0),
        i(BinOp::Sub, 3, 10),
        i(BinOp::Div, 7, 2),
        i(BinOp::Mul, 6, 7),
        print(vec![bin(BinOp::Pow, flt(2.0), flt(3.0), f32_ty())]),
        print(vec![ex(TypedExprKind::Unary { op: UnaryOp::Neg, operand: Box::new(flt(2.5)) }, f32_ty())]),
    ]);
    assert_eq!(m.output, "truefalsetrue-73428-2.5");
}

#[test]
fn no_grad_pauses_recording() {
    let m = run_main(vec![TypedStmt::NoGrad { body: vec![print(vec![num(1)])] }]);
    assert_eq!(m.paused, 0);
    assert_eq!(m.output, "1");
}

#[test]
fn errors_are_rendered() {
    assert_eq!(CodegenError::NoMainFunction.render(), "no fn main() found");
    let e = run(program(vec![main_fn(vec![bind("x", n("y"))])])).err().unwrap();
    assert_eq!(e.render(), "unsupported expression: unknown variable: y");
    let e = run(program(vec![main_fn(vec![bind("x", kcall("nope", vec![]))])])).err().unwrap();
    assert!(matches!(&e, CodegenError::UnknownKernel { name } if name == "nope"));
    assert_eq!(e.render(), "unknown kernel: nope");
    let e = CodegenError::UnsupportedType("t".to_string());
    assert_eq!(e.render(), "unsupported type: t");
    let e = CodegenError::JitError("j".to_string());
    assert_eq!(e.render(), "JIT error: j");
}

#[test]
fn value_behind_unit_parameter_is_an_error() {
    let f = fun("f", vec![("u", ResolvedTy::Unit), ("x", i64_ty())], ResolvedTy::Unit, vec![]);
    let e = run(program(vec![f, main_fn(vec![])])).err().unwrap();
    assert!(matches!(e, CodegenError::UnsupportedType(_)));
}

#[test]
fn format_strings_split_at_placeholders() {
    let segs = parse_format_string("a{}b");
    assert_eq!(segs.len(), 3);
    assert!(matches!(&segs[0], FormatSegment::Literal(s) if s == "a"));
    assert!(matches!(&segs[1], FormatSegment::Placeholder));
    assert!(matches!(&segs[2], FormatSegment::Literal(s) if s == "b"));
}

#[test]
fn runtime_symbols_are_distinct() {
    let all = runtime_symbols();
    assert_eq!(all.len(), 58);
    for i in 0..all.len() {
        for j in 0..i {
            assert_ne!(all[i].name(), all[j].name());
        }
    }
}

#[test]
fn backward_functions_are_found_by_name() {
    let missing = backward_slots(&program(vec![main_fn(vec![])]));
    assert!(missing.is_err());
    let mut fns = vec![];
    for tag in 0..30 {
        fns.push(fun(BwdSlot::from_tag(tag).fn_name(), vec![], ResolvedTy::Unit, vec![]));
    }
    let slots = backward_slots(&program(fns)).unwrap();
    assert_eq!(slots, (0..30).collect::<Vec<usize>>());
}

#[test]
fn released_boxes_count_their_owners() {
    let mut c = RefCount::aggregate_alloc();
    c.aggregate_retain();
    assert_eq!(c.list_release(), 2);
    assert!(c.aggregate_release());
}

#[test]
fn last_reference_releases_each_tensor_of_a_list_once() {
    let list_ty = || ResolvedTy::List { elem: Box::new(f32_tensor()) };
    let list = ex(TypedExprKind::ArrayLiteral { elements: vec![gpu(&[1.0]), gpu(&[2.0]), gpu(&[3.0])] }, list_ty());
    let drop_l = |name: &str| TypedStmt::DropList { name: name.to_string(), elem_ty: f32_tensor() };
    let m = run_main(vec![
        bind("l", list),
        bind("k", var("l", list_ty())),
        TypedStmt::RetainAgg { name: "k".to_string() },
        drop_l("l"),
        drop_l("k"),
    ]);
    let h = m.given_up[0].1;
    let want = vec![
        (RtSym::ListRelease, h),
        (RtSym::TensorRelease, 1),
        (RtSym::TensorRelease, 2),
        (RtSym::TensorRelease, 3),
        (RtSym::ListRelease, h),
    ];
    assert_eq!(m.given_up, want);
    assert_eq!(m.live(), 0);
}

#[test]
fn boxes_go_after_what_they_hold() {
    let pair_ty = || ResolvedTy::Struct {
        name: "P".to_string(),
        fields: vec![("x".to_string(), f32_tensor()), ("n".to_string(), i64_ty()), ("y".to_string(), f32_tensor())],
    };
    let pair = || ex(
        TypedExprKind::StructInit { name: "P".to_string(), fields: vec![gpu(&[1.0]), num(7), gpu(&[2.0])] },
        pair_ty(),
    );
    let slots = || vec![(0, f32_tensor()), (2, f32_tensor())];
    let m = run_main(vec![
        bind("p", pair()),
        print(vec![field(var("p", pair_ty()), "n", i64_ty())]),
        TypedStmt::DropStruct { name: "p".to_string(), droppable_fields: slots() },
    ]);
    assert_eq!(m.output, "7");
    let syms: Vec<RtSym> = m.given_up.iter().map(|g| g.0).collect();
    assert_eq!(syms, vec![RtSym::TensorRelease, RtSym::TensorRelease, RtSym::AggregateRelease]);
    assert_eq!((m.given_up[0].1, m.given_up[1].1), (1, 2));

    let row = |a: f32, b: f32| ex(
        TypedExprKind::ArrayLiteral { elements: vec![gpu(&[a]), gpu(&[b])] },
        ResolvedTy::Array { elem: Box::new(f32_tensor()), len: 2 },
    );
    let inner = || ResolvedTy::Array { elem: Box::new(f32_tensor()), len: 2 };
    let grid_ty = ResolvedTy::Array { elem: Box::new(inner()), len: 2 };
    let grid = ex(TypedExprKind::ArrayLiteral { elements: vec![row(1.0, 2.0), row(3.0, 4.0)] }, grid_ty);
    let m = run_main(vec![
        bind("g", grid),
        TypedStmt::DropArray { name: "g".to_string(), elem_ty: inner(), len: 2 },
    ]);
    let syms: Vec<RtSym> = m.given_up.iter().map(|g| g.0).collect();
    let one = [RtSym::TensorRelease, RtSym::TensorRelease, RtSym::HeapFree];
    assert_eq!(syms, [&one[..], &one[..], &[RtSym::HeapFree][..]].concat());
    let tensors: Vec<i64> = m.given_up.iter().filter(|g| g.0 == RtSym::TensorRelease).map(|g| g.1).collect();
    assert_eq!(tensors, vec![1, 2, 3, 4]);
}

#[test]
fn overwritten_slots_are_given_up_and_read_back() {
    let pair_ty = || ResolvedTy::Struct {
        name: "P".to_string(),
        fields: vec![("x".to_string(), f32_tensor()), ("n".to_string(), i64_ty())],
    };
    let pair = ex(TypedExprKind::StructInit { name: "P".to_string(), fields: vec![gpu(&[1.0]), num(7)] }, pair_ty());
    let put = |slot_idx: usize, field_ty: ResolvedTy, e: TypedExpr| TypedStmt::Assign {
        target: TypedAssignTarget::Field { base: "p".to_string(), slot_idx, field_ty },
        expr: e,
    };
    let m = run_main(vec![
        bind("p", pair),
        put(0, f32_tensor(), gpu(&[5.0])),
        put(1, i64_ty(), num(9)),
        print(vec![field(var("p", pair_ty()), "x", f32_tensor())]),
        print(vec![field(var("p", pair_ty()), "n", i64_ty())]),
    ]);
    assert_eq!(m.output, "[5]9");
    assert_eq!(m.given_up, vec![(RtSym::TensorRelease, 1)]);
}

// ── Functions on integers and truth values ───────────────────────────────────

fn answer(f: TypedFn, args: Vec<i64>) -> i64 {
    let p = program(vec![f, main_fn(vec![])]);
    let mut next: u64 = 0;
    let (_registry, ids) = compile_kernels(&p, &mut next).expect("kernels compile");
    let prog = compile_program(&p, &ids).expect("program compiles");
    Machine::new(prog).call(0, args)
}

#[test]
fn integer_results_wrap_around() {
    let ty = || ResolvedTy::Scalar(ScalarTy::I32);
    let two = |op: BinOp| {
        let e = bin(op, var("a", ty()), var("b", ty()), ty());
        fun("f", vec![("a", ty()), ("b", ty())], ty(), vec![ret(e)])
    };
    assert_eq!(answer(two(BinOp::Add), vec![2_147_483_647, 1]), -2_147_483_648);
    assert_eq!(answer(two(BinOp::Sub), vec![-2_147_483_648, 1]), 2_147_483_647);
    assert_eq!(answer(two(BinOp::Mul), vec![65_536, 65_536]), 0);
    assert_eq!(answer(two(BinOp::Div), vec![-7, 2]), -3);
    let e = ex(TypedExprKind::Unary { op: UnaryOp::Neg, operand: Box::new(var("a", ty())) }, ty());
    assert_eq!(answer(fun("f", vec![("a", ty())], ty(), vec![ret(e)]), vec![-2_147_483_648]), -2_147_483_648);
}

#[test]
fn conditions_combine() {
    let f = |op: BinOp| {
        let c = cond(op, cond(BinOp::Lt, n("a"), num(10)), cond(BinOp::GtEq, n("a"), num(5)));
        let choice = TypedStmt::If { condition: c, then_body: vec![ret(num(1))], else_body: Some(vec![ret(num(0))]) };
        fun("f", vec![("a", i64_ty())], i64_ty(), vec![choice])
    };
    assert_eq!(answer(f(BinOp::And), vec![7]), 1);
    assert_eq!(answer(f(BinOp::And), vec![4]), 0);
    assert_eq!(answer(f(BinOp::And), vec![10]), 0);
    assert_eq!(answer(f(BinOp::Or), vec![4]), 1);
    assert_eq!(answer(f(BinOp::Or), vec![10]), 1);
}

#[test]
fn matches_bind_the_members_of_their_variant() {
    let ty = || ResolvedTy::Enum {
        name: "Shape".to_string(),
        variants: vec![
            ("Dot".to_string(), vec![]),
            ("Line".to_string(), vec![("len".to_string(), i64_ty())]),
            ("Rect".to_string(), vec![("w".to_string(), i64_ty()), ("h".to_string(), i64_ty())]),
        ],
    };
    let f = |variant_index: u32, payload: Vec<TypedExpr>| {
        let shape = ex(TypedExprKind::EnumInit { variant_index, payload, max_payload_slots: 2 }, ty());
        let arm = |variant_index: u32, names: &[&str], body: Vec<TypedStmt>| TypedMatchArm {
            variant_index,
            bindings: names.iter().map(|x| (x.to_string(), i64_ty())).collect(),
            body,
        };
        let arms = vec![
            arm(2, &["w", "h"], vec![ret(bin(BinOp::Sub, n("w"), n("h"), i64_ty()))]),
            arm(1, &["w"], vec![set("a", n("w"))]),
            arm(0, &[], vec![]),
        ];
        let body = vec![
            bind("s", shape),
            TypedStmt::Match { scrutinee: var("s", ty()), arms },
            ret(bin(BinOp::Mul, n("a"), num(100), i64_ty())),
        ];
        fun("f", vec![("a", i64_ty())], i64_ty(), body)
    };
    assert_eq!(answer(f(2, vec![n("a"), num(4)]), vec![11]), 7);
    assert_eq!(answer(f(1, vec![num(3)]), vec![11]), 300);
    assert_eq!(answer(f(0, vec![]), vec![11]), 1100);
}

#[test]
fn truth_values_are_kept_in_variables() {
    let flag = || var("low", ResolvedTy::Bool);
    let body = vec![
        bind("low", cond(BinOp::Lt, n("a"), num(10))),
        when(cond(BinOp::Eq, n("a"), num(3)), vec![set("low", ex(TypedExprKind::Lit(Lit::Bool(false)), ResolvedTy::Bool))]),
        when(flag(), vec![ret(num(1))]),
        ret(num(0)),
    ];
    let f = fun("f", vec![("a", i64_ty())], i64_ty(), body);
    let p = program(vec![f, main_fn(vec![])]);
    let mut next: u64 = 0;
    let (_registry, ids) = compile_kernels(&p, &mut next).expect("kernels compile");
    let mut m = Machine::new(compile_program(&p, &ids).expect("program compiles"));
    assert_eq!(m.call(0, vec![9]), 1);
    assert_eq!(m.call(0, vec![3]), 0);
    assert_eq!(m.call(0, vec![10]), 0);
}

#[test]
fn condition_loops_run_to_their_end() {
    let gcd = || {
        let step = TypedStmt::If {
            condition: cond(BinOp::Gt, n("a"), n("b")),
            then_body: vec![set("a", bin(BinOp::Sub, n("a"), n("b"), i64_ty()))],
            else_body: Some(vec![set("b", bin(BinOp::Sub, n("b"), n("a"), i64_ty()))]),
        };
        let loops = TypedStmt::While { condition: cond(BinOp::NotEq, n("a"), n("b")), body: vec![step] };
        fun("gcd", vec![("a", i64_ty()), ("b", i64_ty())], i64_ty(), vec![loops, ret(n("a"))])
    };
    assert_eq!(answer(gcd(), vec![48, 18]), 6);
    assert_eq!(answer(gcd(), vec![7, 7]), 7);
    assert_eq!(answer(gcd(), vec![5, 8]), 1);
}

#[test]
fn counting_loops_skip_leave_and_return() {
    let sum = || {
        let body = vec![
            when(cond(BinOp::Eq, n("i"), n("skip")), vec![TypedStmt::Continue]),
            when(cond(BinOp::Eq, n("i"), n("stop")), vec![TypedStmt::Break]),
            when(cond(BinOp::Gt, n("total"), num(100)), vec![ret(num(-1))]),
            set("total", bin(BinOp::Add, n("total"), n("i"), i64_ty())),
        ];
        let walk = TypedStmt::For { var: "i".to_string(), start: num(1), end: n("limit"), body };
        fun(
            "sum",
            vec![("limit", i64_ty()), ("skip", i64_ty()), ("stop", i64_ty())],
            i64_ty(),
            vec![bind("total", num(0)), walk, ret(n("total"))],
        )
    };
    assert_eq!(answer(sum(), vec![5, 0, 0]), 10);
    assert_eq!(answer(sum(), vec![5, 3, 0]), 7);
    assert_eq!(answer(sum(), vec![10, 0, 4]), 6);
    assert_eq!(answer(sum(), vec![50, 0, 0]), -1);
    assert_eq!(answer(sum(), vec![1, 0, 0]), 0);
    assert_eq!(answer(sum(), vec![-3, 0, 0]), 0);
}
