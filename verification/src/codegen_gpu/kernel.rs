//! Whole kernels.

use crate::codegen_gpu::error;
use crate::codegen_gpu::error::{bad_body, bad_body_at, CodegenError, Fail};
use crate::codegen_gpu::explicit;
use crate::codegen_gpu::explicit::{any_stmt_reads, Intrinsic, KernelCtx, Names};
use crate::codegen_gpu::implicit;
use crate::codegen_gpu::implicit::lower_kernel_implicit;
use crate::codegen_gpu::msl::dtype_to_msl;
use crate::runtime::bindings;
use crate::text;
use crate::text::{decimal_of, join, push_text};
use crate::typed::{ResolvedTy, ScalarTy, TypedKernel, TypedParam, TypedStmt};
use vstd::prelude::*;

verus! {

/// Names of the tensors among the first `n` parameters.
pub open spec fn tensor_names(params: Seq<TypedParam>, n: nat) -> Seq<Seq<char>>
    decreases n,
{
    if n == 0 {
        Seq::empty()
    } else {
        let rest = tensor_names(params, (n - 1) as nat);
        if params[n - 1].ty is Tensor {
            rest.push(params[n - 1].name@)
        } else {
            rest
        }
    }
}

/// Element types of the tensors among the first `n` parameters.
pub open spec fn tensor_types(params: Seq<TypedParam>, n: nat) -> Seq<ScalarTy>
    decreases n,
{
    if n == 0 {
        Seq::empty()
    } else {
        let rest = tensor_types(params, (n - 1) as nat);
        match params[n - 1].ty.dtype() {
            Some(d) => rest.push(d),
            None => rest,
        }
    }
}

/// Names of the other parameters among the first `n`.
pub open spec fn scalar_names(params: Seq<TypedParam>, n: nat) -> Seq<Seq<char>>
    decreases n,
{
    if n == 0 {
        Seq::empty()
    } else {
        let rest = scalar_names(params, (n - 1) as nat);
        if params[n - 1].ty is Tensor {
            rest
        } else {
            rest.push(params[n - 1].name@)
        }
    }
}

/// Fields of the structure that holds the scalar parameters, from parameter
/// `i` on.
pub open spec fn uniform_fields(params: Seq<TypedParam>, i: nat, done: Seq<Seq<char>>) -> Result<
    Seq<Seq<char>>,
    Fail,
>
    decreases params.len() - i,
{
    if i >= params.len() {
        Ok(done)
    } else {
        match params[i as int].ty {
            ResolvedTy::Tensor { .. } => uniform_fields(params, i + 1, done),
            ResolvedTy::Scalar(s) => uniform_fields(
                params,
                i + 1,
                done.push("    "@ + s.msl() + " "@ + params[i as int].name@ + ";"@),
            ),
            other => Err(
                Fail::UnsupportedKernelBody("scalar param expected, got "@ + other.text()),
            ),
        }
    }
}

/// The structure that holds the scalar parameters, where there are any.
pub open spec fn uniforms(params: Seq<TypedParam>, id: u64) -> Result<Seq<char>, Fail> {
    if scalar_names(params, params.len()).len() == 0 {
        Ok(Seq::empty())
    } else {
        match uniform_fields(params, 0, Seq::empty()) {
            Err(x) => Err(x),
            Ok(fields) => Ok(
                "struct Uniforms_"@ + text::decimal(id as nat) + " {\n"@ + text::joined(
                    fields,
                    "\n"@,
                    fields.len(),
                ) + "};\n\n"@,
            ),
        }
    }
}

/// Declarations of the tensor parameters.
pub open spec fn tensor_decls(names: Seq<Seq<char>>, types: Seq<ScalarTy>) -> Seq<Seq<char>> {
    Seq::new(
        names.len(),
        |i: int|
            "device const "@ + types[i].msl() + "* "@ + names[i] + " [[buffer("@ + text::decimal(
                i as nat,
            ) + ")]]"@,
    )
}

/// Declarations of the descriptions of the tensor parameters.
pub open spec fn meta_decls(names: Seq<Seq<char>>) -> Seq<Seq<char>> {
    Seq::new(
        names.len(),
        |i: int|
            "constant TensorMeta& "@ + names[i] + "_meta [[buffer("@ + text::decimal(
                bindings::meta_at(names.len(), i as nat),
            ) + ")]]"@,
    )
}

/// Declaration of a value of the thread hierarchy, where a body reads it.
pub open spec fn intrinsic_decl(body: Seq<TypedStmt>, x: Intrinsic) -> Seq<Seq<char>> {
    if explicit::body_reads(body, x, 0) {
        seq!["uint "@ + x.holder() + " [["@ + x.attribute() + "]]"@]
    } else {
        Seq::empty()
    }
}

/// All declarations of a kernel that writes its output itself.
pub open spec fn declarations(k: TypedKernel, id: u64, out: ScalarTy) -> Seq<Seq<char>> {
    let names = tensor_names(k.params@, k.params@.len());
    let n = names.len();
    let uniform = if scalar_names(k.params@, k.params@.len()).len() > 0 {
        seq![
            "constant Uniforms_"@ + text::decimal(id as nat) + "& u [[buffer("@ + text::decimal(
                bindings::scalars_at(n),
            ) + ")]]"@,
        ]
    } else {
        Seq::empty()
    };
    tensor_decls(names, tensor_types(k.params@, k.params@.len())).push(
        "device "@ + out.msl() + "* out [[buffer("@ + text::decimal(bindings::output_at(n))
            + ")]]"@,
    ) + uniform + meta_decls(names).push(
        "constant TensorMeta& out_meta [[buffer("@ + text::decimal(bindings::meta_at(n, n))
            + ")]]"@,
    ) + intrinsic_decl(k.body@, Intrinsic::ThreadId) + intrinsic_decl(
        k.body@,
        Intrinsic::ThreadgroupId,
    ) + intrinsic_decl(k.body@, Intrinsic::ThreadInThreadgroup) + intrinsic_decl(
        k.body@,
        Intrinsic::ThreadsPerThreadgroup,
    ) + intrinsic_decl(k.body@, Intrinsic::ThreadsPerGrid)
}

/// Lines with the indentation of a function body.
pub open spec fn indented(lines: Seq<Seq<char>>) -> Seq<Seq<char>> {
    lines.map_values(|l: Seq<char>| "    "@ + l)
}

/// The source of a kernel that writes its output itself.
pub open spec fn explicit_kernel(k: TypedKernel, id: u64) -> Result<Seq<char>, Fail> {
    if k.params@.len() >= u64::MAX / 4 {
        Err(Fail::UnsupportedKernelBody("too many parameters"@))
    } else {
        numbered_kernel(k, id)
    }
}

/// The source of a kernel whose parameters can be numbered.
pub open spec fn numbered_kernel(k: TypedKernel, id: u64) -> Result<Seq<char>, Fail> {
    match k.return_ty.dtype() {
        None => Err(Fail::NonTensorReturnType(k.return_ty.text())),
        Some(d) => match uniforms(k.params@, id) {
            Err(x) => Err(x),
            Ok(u) => {
                let names = Names {
                    tensors: tensor_names(k.params@, k.params@.len()),
                    scalars: scalar_names(k.params@, k.params@.len()),
                };
                match names.body(k.body@, 0, Seq::empty(), Seq::empty()) {
                    Err(x) => Err(x),
                    Ok(lines) => {
                        let decls = declarations(k, id, d);
                        Ok(
                            "#include <metal_stdlib>\nusing namespace metal;\n\nstruct TensorMeta {\n    uint ndim;\n    uint shape[8];\n    uint strides[8];\n};\n\n"@
                                + u + "kernel void malus_kernel_"@ + text::decimal(id as nat)
                                + "(\n    "@ + text::joined(decls, ",\n    "@, decls.len())
                                + "\n) {\n"@ + text::joined(
                                indented(lines),
                                "\n"@,
                                lines.len(),
                            ) + "\n}\n"@,
                        )
                    },
                }
            },
        },
    }
}

/// The source of a kernel.
pub open spec fn kernel_source(k: TypedKernel, id: u64) -> Result<Seq<char>, Fail> {
    if k.is_implicit_map {
        implicit::mapped_kernel(k, id)
    } else {
        explicit_kernel(k, id)
    }
}

fn uniforms_text(params: &Vec<TypedParam>, id: u64) -> (r: Result<String, CodegenError>)
    ensures
        error::produces(r, uniforms(params@, id)),
{
    let mut any = false;
    let mut j: usize = 0;
    while j < params.len()
        invariant
            j <= params.len(),
            any == (scalar_names(params@, j as nat).len() > 0),
        decreases params.len() - j,
    {
        if !params[j].ty.is_tensor() {
            any = true;
        }
        j = j + 1;
    }
    if !any {
        let none = String::new();
        assert(none@ =~= Seq::<char>::empty());
        return Ok(none);
    }
    let mut fields: Vec<String> = Vec::new();
    let mut i: usize = 0;
    assert(text::texts(fields@) =~= Seq::<Seq<char>>::empty());
    while i < params.len()
        invariant
            i <= params.len(),
            scalar_names(params@, params@.len()).len() > 0,
            uniform_fields(params@, 0, Seq::empty()) == uniform_fields(
                params@,
                i as nat,
                text::texts(fields@),
            ),
        decreases params.len() - i,
    {
        match &params[i].ty {
            ResolvedTy::Tensor { .. } => {},
            ResolvedTy::Scalar(s) => {
                let field = "    ".to_string().concat(dtype_to_msl(*s)).concat(" ").concat(
                    params[i].name.as_str(),
                ).concat(";");
                push_text(&mut fields, field);
            },
            other => {
                let t = other.render();
                return Err(bad_body_at("scalar param expected, got ", t.as_str()));
            },
        }
        i = i + 1;
    }
    let list = join(&fields, "\n");
    Ok(
        "struct Uniforms_".to_string().concat(decimal_of(id).as_str()).concat(" {\n").concat(
            list.as_str(),
        ).concat("};\n\n"),
    )
}

fn push_intrinsic(decls: &mut Vec<String>, body: &Vec<TypedStmt>, x: Intrinsic)
    ensures
        text::texts(final(decls)@) == text::texts(old(decls)@) + intrinsic_decl(body@, x),
{
    if any_stmt_reads(body, x) {
        let line = "uint ".to_string().concat(x.var()).concat(" [[").concat(x.attr()).concat("]]");
        push_text(decls, line);
        assert(text::texts(decls@) =~= text::texts(old(decls)@) + intrinsic_decl(body@, x));
    } else {
        assert(text::texts(decls@) =~= text::texts(old(decls)@) + intrinsic_decl(body@, x));
    }
}

fn context_of(params: &Vec<TypedParam>) -> (r: (KernelCtx, Vec<ScalarTy>))
    ensures
        r.0@.tensors == tensor_names(params@, params@.len()),
        r.0@.scalars == scalar_names(params@, params@.len()),
        r.1@ == tensor_types(params@, params@.len()),
        r.0.tensors.len() == r.1.len(),
{
    let mut tensors: Vec<String> = Vec::new();
    let mut scalars: Vec<String> = Vec::new();
    let mut types: Vec<ScalarTy> = Vec::new();
    let mut i: usize = 0;
    proof {
        assert(text::texts(tensors@) =~= Seq::<Seq<char>>::empty());
        assert(text::texts(scalars@) =~= Seq::<Seq<char>>::empty());
    }
    while i < params.len()
        invariant
            i <= params.len(),
            text::texts(tensors@) == tensor_names(params@, i as nat),
            text::texts(scalars@) == scalar_names(params@, i as nat),
            types@ == tensor_types(params@, i as nat),
            tensors.len() == types.len(),
        decreases params.len() - i,
    {
        match params[i].ty.tensor_dtype() {
            Some(d) => {
                push_text(&mut tensors, params[i].name.clone());
                types.push(d);
                assert(text::texts(tensors@).len() == tensors.len());
            },
            None => {
                push_text(&mut scalars, params[i].name.clone());
            },
        }
        i = i + 1;
    }
    (KernelCtx { tensors, scalars }, types)
}

#[verifier::rlimit(40)]
fn declarations_of(
    kernel: &TypedKernel,
    id: u64,
    out: ScalarTy,
    ctx: &KernelCtx,
    types: &Vec<ScalarTy>,
) -> (r: Vec<String>)
    requires
        ctx@.tensors == tensor_names(kernel.params@, kernel.params@.len()),
        ctx@.scalars == scalar_names(kernel.params@, kernel.params@.len()),
        types@ == tensor_types(kernel.params@, kernel.params@.len()),
        ctx.tensors.len() == types.len(),
        ctx.tensors.len() < u64::MAX / 4,
    ensures
        text::texts(r@) == declarations(*kernel, id, out),
{
    let ghost names = ctx@.tensors;
    let n: usize = ctx.tensors.len();
    assert(names.len() == n);
    let mut decls: Vec<String> = Vec::new();
    let mut i: usize = 0;
    while i < n
        invariant
            i <= n,
            n == ctx.tensors.len(),
            n == types.len(),
            names == text::texts(ctx.tensors@),
            text::texts(decls@) =~= tensor_decls(names, types@).take(i as int),
        decreases n - i,
    {
        let line = "device const ".to_string().concat(dtype_to_msl(types[i])).concat(
            "* ",
        ).concat(ctx.tensors[i].as_str()).concat(" [[buffer(").concat(
            decimal_of(i as u64).as_str(),
        ).concat(")]]");
        assert(names[i as int] == ctx.tensors@[i as int]@);
        push_text(&mut decls, line);
        i = i + 1;
    }
    let ghost part0 = tensor_decls(names, types@);
    assert(text::texts(decls@) =~= part0);
    let line = "device ".to_string().concat(dtype_to_msl(out)).concat("* out [[buffer(").concat(
        decimal_of(n as u64).as_str(),
    ).concat(")]]");
    push_text(&mut decls, line);
    let ghost part1 = part0.push(line@);
    let ghost uniform = Seq::<Seq<char>>::empty();
    if ctx.scalars.len() > 0 {
        assert(ctx@.scalars.len() > 0);
        let line = "constant Uniforms_".to_string().concat(decimal_of(id).as_str()).concat(
            "& u [[buffer(",
        ).concat(decimal_of(n as u64 + 1).as_str()).concat(")]]");
        push_text(&mut decls, line);
        proof {
            uniform = seq![line@];
            assert(text::texts(decls@) =~= part1 + uniform);
        }
    } else {
        assert(ctx@.scalars.len() == 0);
        assert(text::texts(decls@) =~= part1 + uniform);
    }
    let ghost part2 = part1 + uniform;
    let mut j: usize = 0;
    assert(text::texts(decls@) =~= part2 + meta_decls(names).take(0));
    while j < n
        invariant
            j <= n,
            n == ctx.tensors.len(),
            n < u64::MAX / 4,
            names == text::texts(ctx.tensors@),
            text::texts(decls@) =~= part2 + meta_decls(names).take(j as int),
        decreases n - j,
    {
        let line = "constant TensorMeta& ".to_string().concat(ctx.tensors[j].as_str()).concat(
            "_meta [[buffer(",
        ).concat(decimal_of(n as u64 + 2 + j as u64).as_str()).concat(")]]");
        assert(names[j as int] == ctx.tensors@[j as int]@);
        push_text(&mut decls, line);
        proof {
            assert(part2 + meta_decls(names).take(j as int + 1) =~= (part2 + meta_decls(
                names,
            ).take(j as int)).push(meta_decls(names)[j as int]));
        }
        j = j + 1;
    }
    assert(meta_decls(names).take(n as int) =~= meta_decls(names));
    let line = "constant TensorMeta& out_meta [[buffer(".to_string().concat(
        decimal_of(n as u64 + 2 + n as u64).as_str(),
    ).concat(")]]");
    push_text(&mut decls, line);
    let ghost part3 = part2 + meta_decls(names).push(line@);
    assert(text::texts(decls@) =~= part3);
    push_intrinsic(&mut decls, &kernel.body, Intrinsic::ThreadId);
    push_intrinsic(&mut decls, &kernel.body, Intrinsic::ThreadgroupId);
    push_intrinsic(&mut decls, &kernel.body, Intrinsic::ThreadInThreadgroup);
    push_intrinsic(&mut decls, &kernel.body, Intrinsic::ThreadsPerThreadgroup);
    push_intrinsic(&mut decls, &kernel.body, Intrinsic::ThreadsPerGrid);
    decls
}

fn indent_lines(lines: &Vec<String>) -> (r: Vec<String>)
    ensures
        text::texts(r@) == indented(text::texts(lines@)),
        r.len() == lines.len(),
{
    let mut out: Vec<String> = Vec::new();
    let mut i: usize = 0;
    while i < lines.len()
        invariant
            i <= lines.len(),
            out.len() == i,
            forall|j: int| 0 <= j < i ==> (#[trigger] out@[j])@ == "    "@ + lines@[j]@,
        decreases lines.len() - i,
    {
        out.push("    ".to_string().concat(lines[i].as_str()));
        i = i + 1;
    }
    assert(text::texts(out@) =~= indented(text::texts(lines@)));
    out
}

/// The source of a kernel that writes its output itself.
pub fn lower_kernel_explicit(kernel: &TypedKernel, kernel_id: u64) -> (r: Result<
    String,
    CodegenError,
>)
    ensures
        error::produces(r, explicit_kernel(*kernel, kernel_id)),
{
    if kernel.params.len() as u64 >= u64::MAX / 4 {
        return Err(bad_body("too many parameters"));
    }
    let dtype = match kernel.return_ty.tensor_dtype() {
        Some(d) => d,
        None => {
            return Err(CodegenError::NonTensorReturnType(kernel.return_ty.render()));
        },
    };
    let u = match uniforms_text(&kernel.params, kernel_id) {
        Ok(s) => s,
        Err(x) => {
            return Err(x);
        },
    };
    let (ctx, types) = context_of(&kernel.params);
    let mut lines: Vec<String> = Vec::new();
    let none = String::new();
    proof {
        assert(text::texts(lines@) =~= Seq::<Seq<char>>::empty());
        assert(none@ =~= Seq::<char>::empty());
        assert(ctx@ == (Names {
            tensors: tensor_names(kernel.params@, kernel.params@.len()),
            scalars: scalar_names(kernel.params@, kernel.params@.len()),
        }));
    }
    match ctx.lower_kernel_body_explicit(&kernel.body, none.as_str(), &mut lines) {
        Ok(_) => {},
        Err(x) => {
            return Err(x);
        },
    }
    proof {
        names_bound(kernel.params@, kernel.params@.len());
        assert(ctx@.tensors.len() == ctx.tensors.len());
    }
    let decls = declarations_of(kernel, kernel_id, dtype, &ctx, &types);
    let list = join(&decls, ",\n    ");
    let lined = indent_lines(&lines);
    let body = join(&lined, "\n");
    let mut s =
        "#include <metal_stdlib>\nusing namespace metal;\n\nstruct TensorMeta {\n    uint ndim;\n    uint shape[8];\n    uint strides[8];\n};\n\n".to_string();
    s.append(u.as_str());
    s.append("kernel void malus_kernel_");
    s.append(decimal_of(kernel_id).as_str());
    s.append("(\n    ");
    s.append(list.as_str());
    s.append("\n) {\n");
    s.append(body.as_str());
    s.append("\n}\n");
    proof {
        assert(text::texts(decls@).len() == decls.len());
        assert(text::texts(lines@).len() == lines.len());
    }
    Ok(s)
}

proof fn names_bound(params: Seq<TypedParam>, n: nat)
    ensures
        tensor_names(params, n).len() <= n,
    decreases n,
{
    if n > 0 {
        names_bound(params, (n - 1) as nat);
    }
}

/// The source of a kernel.
pub fn lower_kernel(kernel: &TypedKernel, kernel_id: u64) -> (r: Result<String, CodegenError>)
    ensures
        error::produces(r, kernel_source(*kernel, kernel_id)),
{
    if kernel.is_implicit_map {
        lower_kernel_implicit(kernel, kernel_id)
    } else {
        lower_kernel_explicit(kernel, kernel_id)
    }
}

} // verus!
