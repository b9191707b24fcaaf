//! The state of one function translation and the primitive steps that extend
//! it, each as a function on the mathematical model and as executable code.

use crate::codegen_cpu::inst::{Blk, Callee, ClTy, Convert, Inst, StackSlot, Val, Var};
use crate::codegen_cpu::symbols::RtSym;
use vstd::hash_map::StringHashMap;
use vstd::prelude::*;

verus! {

/// Why a program could not be lowered.
#[derive(Debug)]
pub enum CodegenError {
    NoMainFunction,
    UnsupportedExpr(String),
    UnsupportedType(String),
    UnknownKernel { name: String },
    JitError(String),
}

/// Model of [`CodegenError`].
pub enum Fail {
    NoMainFunction,
    UnsupportedExpr(Seq<char>),
    UnsupportedType(Seq<char>),
    UnknownKernel(Seq<char>),
    JitError(Seq<char>),
}

impl View for CodegenError {
    type V = Fail;

    open spec fn view(&self) -> Fail {
        match self {
            CodegenError::NoMainFunction => Fail::NoMainFunction,
            CodegenError::UnsupportedExpr(s) => Fail::UnsupportedExpr(s@),
            CodegenError::UnsupportedType(s) => Fail::UnsupportedType(s@),
            CodegenError::UnknownKernel { name } => Fail::UnknownKernel(name@),
            CodegenError::JitError(s) => Fail::JitError(s@),
        }
    }
}

impl Fail {
    /// The message shown to the user.
    pub open spec fn text(self) -> Seq<char> {
        match self {
            Fail::NoMainFunction => "no fn main() found"@,
            Fail::UnsupportedExpr(s) => "unsupported expression: "@ + s,
            Fail::UnsupportedType(s) => "unsupported type: "@ + s,
            Fail::UnknownKernel(s) => "unknown kernel: "@ + s,
            Fail::JitError(s) => "JIT error: "@ + s,
        }
    }
}

impl CodegenError {
    /// Renders the error for the user.
    pub fn render(&self) -> (r: String)
        ensures
            r@ == self@.text(),
    {
        match self {
            CodegenError::NoMainFunction => "no fn main() found".to_string(),
            CodegenError::UnsupportedExpr(s) => "unsupported expression: ".to_string().concat(
                s.as_str(),
            ),
            CodegenError::UnsupportedType(s) => "unsupported type: ".to_string().concat(s.as_str()),
            CodegenError::UnknownKernel { name } => "unknown kernel: ".to_string().concat(
                name.as_str(),
            ),
            CodegenError::JitError(s) => "JIT error: ".to_string().concat(s.as_str()),
        }
    }
}

/// Builds an error from two pieces of text.
pub(crate) fn unsupported(head: &str, tail: &str) -> (r: CodegenError)
    ensures
        r@ == Fail::UnsupportedExpr(head@ + tail@),
{
    CodegenError::UnsupportedExpr(head.to_string().concat(tail))
}

/// Builds an error from three pieces of text.
pub(crate) fn unsupported_mid(head: &str, mid: &str, tail: &str) -> (r: CodegenError)
    ensures
        r@ == Fail::UnsupportedExpr(head@ + mid@ + tail@),
{
    CodegenError::UnsupportedExpr(head.to_string().concat(mid).concat(tail))
}

/// Builds an error from one piece of text.
pub(crate) fn unsupported_msg(msg: &str) -> (r: CodegenError)
    ensures
        r@ == Fail::UnsupportedExpr(msg@),
{
    CodegenError::UnsupportedExpr(msg.to_string())
}

/// A function that can be called by name.
#[derive(Clone, Copy, Debug, PartialEq, Eq, Structural)]
pub struct FnRef {
    pub index: usize,
    pub ret: Option<ClTy>,
}

impl FnRef {
    pub open spec fn callee(self) -> Callee {
        Callee::Function { index: self.index, ret: self.ret }
    }
}

/// What names mean outside the function being translated: kernels by their
/// identifier, functions by their position in the program.
pub struct Env<'a> {
    pub kernels: &'a StringHashMap<u64>,
    pub fns: StringHashMap<FnRef>,
}

/// Model of [`Env`].
pub struct EnvView {
    pub kernels: Map<Seq<char>, u64>,
    pub fns: Map<Seq<char>, FnRef>,
}

impl<'a> View for Env<'a> {
    type V = EnvView;

    open spec fn view(&self) -> EnvView {
        EnvView { kernels: self.kernels@, fns: self.fns@ }
    }
}

/// Model of a translation in progress.
pub struct St {
    /// Instructions emitted so far.
    pub code: Seq<Inst>,
    /// For each instruction, the machine type of the value it introduces.
    pub tys: Seq<Option<ClTy>>,
    /// Texts that the code refers to.
    pub strs: Seq<Seq<char>>,
    /// Variables that the source names are bound to.
    pub vars: Map<Seq<char>, Var>,
}

/// A translation in progress.
pub struct FnTranslator {
    pub code: Vec<Inst>,
    pub tys: Vec<Option<ClTy>>,
    pub strs: Vec<String>,
    pub vars: StringHashMap<Var>,
}

impl View for FnTranslator {
    type V = St;

    open spec fn view(&self) -> St {
        St {
            code: self.code@,
            tys: self.tys@,
            strs: crate::text::texts(self.strs@),
            vars: self.vars@,
        }
    }
}

/// The state before anything has been emitted.
pub open spec fn empty_state() -> St {
    St {
        code: Seq::empty(),
        tys: Seq::empty(),
        strs: Seq::empty(),
        vars: Map::empty(),
    }
}

impl St {
    /// Machine type of a value.
    pub open spec fn val_ty(self, v: Val) -> Option<ClTy> {
        if v.0 < self.tys.len() {
            self.tys[v.0 as int]
        } else {
            None
        }
    }

    /// Machine type of the value that an instruction introduces.
    pub open spec fn result_ty(self, i: Inst) -> Option<ClTy> {
        match i {
            Inst::Param { index, ty } => Some(ty),
            Inst::DeclareVar { ty } => Some(ty),
            Inst::Iconst { ty, imm } => Some(ty),
            Inst::Load { ty, base, offset } => Some(ty),
            Inst::UseVar { var } => self.val_ty(Val(var.0)),
            Inst::F32Const { bits } => Some(ClTy::F32),
            Inst::F32FromInt { imm } => Some(ClTy::F32),
            Inst::Arith { op, lhs, rhs } => self.val_ty(lhs),
            Inst::IaddImm { val, imm } => self.val_ty(val),
            Inst::IntCompare { icc, lhs, rhs } => Some(ClTy::I8),
            Inst::FloatCompare { fcc, lhs, rhs } => Some(ClTy::I8),
            Inst::Convert { conv, val } => match conv {
                Convert::Fneg | Convert::Ineg => self.val_ty(val),
                Convert::Bmask8 => Some(ClTy::I8),
                Convert::Sextend64 => Some(ClTy::I64),
                Convert::Ireduce32 => Some(ClTy::I32),
                Convert::FcvtFromSint => Some(ClTy::F32),
            },
            Inst::StackAddr { slot } => Some(ClTy::Ptr),
            Inst::CstrAddr { entry } => Some(ClTy::Ptr),
            Inst::Call { callee, argc } => match callee {
                Callee::Runtime(s) => s.ret(),
                Callee::Function { index, ret } => ret,
            },
            _ => None,
        }
    }

    /// Position of the next instruction.
    pub open spec fn next(self) -> usize {
        self.code.len() as usize
    }

    /// Appends one instruction.
    pub open spec fn emit(self, i: Inst) -> St {
        St { code: self.code.push(i), tys: self.tys.push(self.result_ty(i)), ..self }
    }

    /// Appends an instruction that introduces a value.
    pub open spec fn val(self, i: Inst) -> (St, Val) {
        (self.emit(i), Val(self.next()))
    }

    /// Declares a block.
    pub open spec fn blk(self) -> (St, Blk) {
        (self.emit(Inst::Block), Blk(self.next()))
    }

    /// Reserves a stack slot.
    pub open spec fn slot(self, size: u32, align: u8) -> (St, StackSlot) {
        (self.emit(Inst::Slot { size, align }), StackSlot(self.next()))
    }

    /// Declares a variable.
    pub open spec fn declare(self, ty: ClTy) -> (St, Var) {
        (self.emit(Inst::DeclareVar { ty }), Var(self.next()))
    }

    /// Binds a source name to a variable, hiding an earlier binding.
    pub open spec fn bind(self, name: Seq<char>, var: Var) -> St {
        St { vars: self.vars.insert(name, var), ..self }
    }

    /// Declares a variable, sets it and binds a name to it.
    pub open spec fn bind_new(self, name: Seq<char>, ty: ClTy, v: Val) -> St {
        let st = self;
        let (st, var) = st.declare(ty);
        st.emit(Inst::DefVar { var, val: v }).bind(name, var)
    }

    /// Passes the arguments from position `i` on.
    pub open spec fn pass_args(self, args: Seq<Val>, i: nat) -> St
        decreases args.len() - i,
    {
        if i >= args.len() {
            self
        } else {
            self.emit(Inst::Arg { val: args[i as int] }).pass_args(args, i + 1)
        }
    }

    /// Calls a function; the result value is named by the call's position.
    pub open spec fn call(self, callee: Callee, args: Seq<Val>) -> (St, Val) {
        self.pass_args(args, 0).val(Inst::Call { callee, argc: args.len() as usize })
    }

    /// Calls a runtime function.
    pub open spec fn rt(self, sym: RtSym, args: Seq<Val>) -> (St, Val) {
        self.call(Callee::Runtime(sym), args)
    }

    /// Puts a text into the function's table and takes its address.
    pub open spec fn static_cstr(self, text: Seq<char>) -> (St, Val) {
        St { strs: self.strs.push(text), ..self }.val(Inst::CstrAddr { entry: self.strs.len() as usize })
    }

    /// Reads the variable that a name is bound to.
    pub open spec fn use_var(self, name: Seq<char>) -> Result<(St, Val), Fail> {
        if self.vars.contains_key(name) {
            Ok(self.val(Inst::UseVar { var: self.vars[name] }))
        } else {
            Err(Fail::UnsupportedExpr("unknown variable: "@ + name))
        }
    }
}

/// Byte offset of slot `i` behind a header of `base` bytes; slots are eight
/// bytes wide.
pub open spec fn slot_offset(base: i32, i: nat) -> i32 {
    (base + 8 * i) as i32
}

/// Size in bytes of `n` eight-byte slots behind a header of `base` bytes.
pub open spec fn box_size(base: i64, n: nat) -> i64 {
    (base + 8 * n) as i64
}

/// Size in bytes of `n` stack entries of `width` bytes.
pub open spec fn stack_size(width: nat, n: nat) -> u32 {
    (width * n) as u32
}

/// Whether what a lowering step returned is what the scheme prescribes.
pub open spec fn yields(r: Result<Val, CodegenError>, st: St, want: Result<(St, Val), Fail>) -> bool {
    match r {
        Ok(v) => want == Ok::<(St, Val), Fail>((st, v)),
        Err(e) => want == Err::<(St, Val), Fail>(e@),
    }
}

/// As [`yields`], for a step without a result value.
pub open spec fn completes(r: Result<(), CodegenError>, st: St, want: Result<St, Fail>) -> bool {
    match r {
        Ok(_) => want == Ok::<St, Fail>(st),
        Err(e) => want == Err::<St, Fail>(e@),
    }
}

/// The slots of a box lie behind its header, inside the box, and apart from
/// each other.
pub proof fn slots_lie_in_box(base: i32, n: nat, i: nat, j: nat)
    requires
        0 <= base,
        base + 8 * n <= i32::MAX,
        i < j < n,
    ensures
        base <= slot_offset(base, i),
        slot_offset(base, i) + 8 <= slot_offset(base, j),
        slot_offset(base, j) + 8 <= box_size(base as i64, n),
{
}

pub(crate) fn slot_offset_of(base: i32, i: usize) -> (r: i32)
    ensures
        r == slot_offset(base, i as nat),
{
    #[verifier::truncate]
    ((base as i128 + 8 * (i as i128)) as i32)
}

pub(crate) fn box_size_of(base: i64, n: usize) -> (r: i64)
    ensures
        r == box_size(base, n as nat),
{
    #[verifier::truncate]
    ((base as i128 + 8 * (n as i128)) as i64)
}

pub(crate) fn stack_size_of(width: u32, n: usize) -> (r: u32)
    ensures
        r == stack_size(width as nat, n as nat),
{
    proof {
        assert(width * n <= 0xffff_ffff * 0xffff_ffff_ffff_ffff) by (nonlinear_arith)
            requires
                width <= 0xffff_ffff,
                n <= 0xffff_ffff_ffff_ffff,
        ;
    }
    #[verifier::truncate]
    ((width as u128 * n as u128) as u32)
}

impl FnTranslator {
    /// Starts a translation.
    pub fn new() -> (r: Self)
        ensures
            r@ == empty_state(),
    {
        let r = FnTranslator {
            code: Vec::new(),
            tys: Vec::new(),
            strs: Vec::new(),
            vars: StringHashMap::new(),
        };
        proof {
            assert(r@.strs =~= Seq::<Seq<char>>::empty());
        }
        r
    }

    pub(crate) fn val_ty(&self, v: Val) -> (r: Option<ClTy>)
        ensures
            r == self@.val_ty(v),
    {
        if v.0 < self.tys.len() {
            self.tys[v.0]
        } else {
            None
        }
    }

    fn result_ty(&self, i: Inst) -> (r: Option<ClTy>)
        ensures
            r == self@.result_ty(i),
    {
        match i {
            Inst::Param { index, ty } => Some(ty),
            Inst::DeclareVar { ty } => Some(ty),
            Inst::Iconst { ty, imm } => Some(ty),
            Inst::Load { ty, base, offset } => Some(ty),
            Inst::UseVar { var } => self.val_ty(Val(var.0)),
            Inst::F32Const { bits } => Some(ClTy::F32),
            Inst::F32FromInt { imm } => Some(ClTy::F32),
            Inst::Arith { op, lhs, rhs } => self.val_ty(lhs),
            Inst::IaddImm { val, imm } => self.val_ty(val),
            Inst::IntCompare { icc, lhs, rhs } => Some(ClTy::I8),
            Inst::FloatCompare { fcc, lhs, rhs } => Some(ClTy::I8),
            Inst::Convert { conv, val } => match conv {
                Convert::Fneg | Convert::Ineg => self.val_ty(val),
                Convert::Bmask8 => Some(ClTy::I8),
                Convert::Sextend64 => Some(ClTy::I64),
                Convert::Ireduce32 => Some(ClTy::I32),
                Convert::FcvtFromSint => Some(ClTy::F32),
            },
            Inst::StackAddr { slot } => Some(ClTy::Ptr),
            Inst::CstrAddr { entry } => Some(ClTy::Ptr),
            Inst::Call { callee, argc } => match callee {
                Callee::Runtime(s) => s.result_type(),
                Callee::Function { index, ret } => ret,
            },
            _ => None,
        }
    }

    pub(crate) fn emit(&mut self, i: Inst)
        ensures
            final(self)@ == old(self)@.emit(i),
    {
        let t = self.result_ty(i);
        self.code.push(i);
        self.tys.push(t);
    }

    pub(crate) fn val(&mut self, i: Inst) -> (r: Val)
        ensures
            (final(self)@, r) == old(self)@.val(i),
    {
        let n: usize = self.code.len();
        self.emit(i);
        Val(n)
    }

    pub(crate) fn blk(&mut self) -> (r: Blk)
        ensures
            (final(self)@, r) == old(self)@.blk(),
    {
        let n: usize = self.code.len();
        self.emit(Inst::Block);
        Blk(n)
    }

    pub(crate) fn slot(&mut self, size: u32, align: u8) -> (r: StackSlot)
        ensures
            (final(self)@, r) == old(self)@.slot(size, align),
    {
        let n: usize = self.code.len();
        self.emit(Inst::Slot { size, align });
        StackSlot(n)
    }

    pub(crate) fn declare(&mut self, ty: ClTy) -> (r: Var)
        ensures
            (final(self)@, r) == old(self)@.declare(ty),
    {
        let n: usize = self.code.len();
        self.emit(Inst::DeclareVar { ty });
        Var(n)
    }

    pub(crate) fn bind(&mut self, name: &String, var: Var)
        ensures
            final(self)@ == old(self)@.bind(name@, var),
    {
        self.vars.insert(name.clone(), var);
    }

    pub(crate) fn bind_new(&mut self, name: &String, ty: ClTy, v: Val)
        ensures
            final(self)@ == old(self)@.bind_new(name@, ty, v),
    {
        let var = self.declare(ty);
        self.emit(Inst::DefVar { var, val: v });
        self.bind(name, var);
    }

    pub(crate) fn iconst(&mut self, ty: ClTy, imm: i64) -> (r: Val)
        ensures
            (final(self)@, r) == old(self)@.val(Inst::Iconst { ty, imm }),
    {
        self.val(Inst::Iconst { ty, imm })
    }

    fn pass_args(&mut self, args: &Vec<Val>)
        ensures
            final(self)@ == old(self)@.pass_args(args@, 0),
    {
        let ghost st0 = self@;
        let mut i: usize = 0;
        while i < args.len()
            invariant
                i <= args.len(),
                st0.pass_args(args@, 0) == self@.pass_args(args@, i as nat),
            decreases args.len() - i,
        {
            self.emit(Inst::Arg { val: args[i] });
            i = i + 1;
        }
    }

    pub(crate) fn call(&mut self, callee: Callee, args: &Vec<Val>) -> (r: Val)
        ensures
            (final(self)@, r) == old(self)@.call(callee, args@),
    {
        self.pass_args(args);
        self.val(Inst::Call { callee, argc: args.len() })
    }

    pub(crate) fn rt(&mut self, sym: RtSym, args: &Vec<Val>) -> (r: Val)
        ensures
            (final(self)@, r) == old(self)@.rt(sym, args@),
    {
        self.call(Callee::Runtime(sym), args)
    }

    pub(crate) fn rt0(&mut self, sym: RtSym) -> (r: Val)
        ensures
            (final(self)@, r) == old(self)@.rt(sym, seq![]),
    {
        let args: Vec<Val> = Vec::new();
        proof {
            assert(args@ =~= seq![]);
        }
        self.rt(sym, &args)
    }

    pub(crate) fn rt1(&mut self, sym: RtSym, a: Val) -> (r: Val)
        ensures
            (final(self)@, r) == old(self)@.rt(sym, seq![a]),
    {
        let mut args: Vec<Val> = Vec::new();
        args.push(a);
        proof {
            assert(args@ =~= seq![a]);
        }
        self.rt(sym, &args)
    }

    pub(crate) fn rt2(&mut self, sym: RtSym, a: Val, b: Val) -> (r: Val)
        ensures
            (final(self)@, r) == old(self)@.rt(sym, seq![a, b]),
    {
        let mut args: Vec<Val> = Vec::new();
        args.push(a);
        args.push(b);
        proof {
            assert(args@ =~= seq![a, b]);
        }
        self.rt(sym, &args)
    }

    pub(crate) fn rt3(&mut self, sym: RtSym, a: Val, b: Val, c: Val) -> (r: Val)
        ensures
            (final(self)@, r) == old(self)@.rt(sym, seq![a, b, c]),
    {
        let mut args: Vec<Val> = Vec::new();
        args.push(a);
        args.push(b);
        args.push(c);
        proof {
            assert(args@ =~= seq![a, b, c]);
        }
        self.rt(sym, &args)
    }

    pub(crate) fn rt4(&mut self, sym: RtSym, a: Val, b: Val, c: Val, d: Val) -> (r: Val)
        ensures
            (final(self)@, r) == old(self)@.rt(sym, seq![a, b, c, d]),
    {
        let mut args: Vec<Val> = Vec::new();
        args.push(a);
        args.push(b);
        args.push(c);
        args.push(d);
        proof {
            assert(args@ =~= seq![a, b, c, d]);
        }
        self.rt(sym, &args)
    }

    pub(crate) fn rt5(&mut self, sym: RtSym, a: Val, b: Val, c: Val, d: Val, e: Val) -> (r: Val)
        ensures
            (final(self)@, r) == old(self)@.rt(sym, seq![a, b, c, d, e]),
    {
        let mut args: Vec<Val> = Vec::new();
        args.push(a);
        args.push(b);
        args.push(c);
        args.push(d);
        args.push(e);
        proof {
            assert(args@ =~= seq![a, b, c, d, e]);
        }
        self.rt(sym, &args)
    }

    pub(crate) fn emit_static_cstr(&mut self, text: &str) -> (r: Val)
        ensures
            (final(self)@, r) == old(self)@.static_cstr(text@),
    {
        let n: usize = self.strs.len();
        let ghost before = self.strs@;
        let s = text.to_string();
        self.strs.push(s);
        proof {
            assert(crate::text::texts(before.push(s)) =~= crate::text::texts(before).push(text@));
        }
        self.val(Inst::CstrAddr { entry: n })
    }

    pub(crate) fn use_var(&mut self, name: &String) -> (r: Result<Val, CodegenError>)
        ensures
            yields(r, final(self)@, old(self)@.use_var(name@)),
    {
        match self.vars.get(name.as_str()) {
            Some(var) => {
                let var = *var;
                Ok(self.val(Inst::UseVar { var }))
            },
            None => Err(unsupported("unknown variable: ", name.as_str())),
        }
    }
}

} // verus!
