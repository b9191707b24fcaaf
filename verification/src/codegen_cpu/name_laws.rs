//! That what operations are called in the language, in the library, in the
//! runtime and on the tape fits together.

use crate::codegen_cpu::builtins;
use crate::codegen_cpu::builtins::Builtin;
use crate::runtime::tags::OpTag;
use crate::text;
use crate::typed::BinOp;
use vstd::prelude::*;

verus! {

/// A function of the language that is recorded is recorded as the operation of
/// that name.
pub proof fn functions_are_recorded_by_name(name: Seq<char>, op: OpTag)
    requires
        builtins::optag_of_unary(name) == Some(op.tag() as i32),
    ensures
        op.text() == name,
{
}

/// The operation of a name is recorded, where it has one operand.
pub proof fn named_functions_are_recorded(op: OpTag)
    requires
        op is Sigmoid || op is Relu || op is Tanh || op is Exp || op is Log || op is Sqrt || op is Abs
            || op is Gelu || op is Sum || op is Transpose,
    ensures
        builtins::optag_of_unary(op.text()) == Some(op.tag() as i32),
{
    reveal_strlit("sigmoid");
    reveal_strlit("relu");
    reveal_strlit("tanh");
    reveal_strlit("exp");
    reveal_strlit("log");
    reveal_strlit("sqrt");
    reveal_strlit("abs");
    reveal_strlit("gelu");
    reveal_strlit("sum");
    reveal_strlit("transpose");
    assert("sigmoid"@.len() == 7 && "transpose"@.len() == 9);
    assert("relu"@.len() == 4 && "tanh"@.len() == 4 && "sqrt"@.len() == 4 && "gelu"@.len() == 4);
    assert("exp"@.len() == 3 && "log"@.len() == 3 && "abs"@.len() == 3 && "sum"@.len() == 3);
    assert("sqrt"@[0] != "relu"@[0] && "tanh"@[0] != "relu"@[0] && "gelu"@[0] != "relu"@[0]);
    assert("sqrt"@[0] != "tanh"@[0] && "gelu"@[0] != "tanh"@[0] && "gelu"@[0] != "sqrt"@[0]);
    assert("log"@[0] != "exp"@[0] && "abs"@[0] != "exp"@[0] && "sum"@[0] != "exp"@[0]);
    assert("abs"@[0] != "log"@[0] && "sum"@[0] != "log"@[0] && "sum"@[0] != "abs"@[0]);
}

/// A reduction calls the function of the library of its name, and is recorded
/// as the operation of its name.
pub proof fn reductions_are_named_alike(name: Seq<char>, b: Builtin, op: OpTag)
    requires
        builtins::builtin_of(name) == Some(b),
        b is Sum || b is Mean || b is Max || b is Variance,
        b.axis_fwd().1 == op.tag(),
    ensures
        b.axis_fwd().0 == "__reduce_"@ + name + "_fwd"@,
        op.text() == "reduce_"@ + name + "_axis"@,
{
    reveal_strlit("sum");
    reveal_strlit("mean");
    reveal_strlit("max");
    reveal_strlit("var");
    reveal_strlit("__reduce_");
    reveal_strlit("_fwd");
    reveal_strlit("reduce_");
    reveal_strlit("_axis");
    reveal_strlit("__reduce_sum_fwd");
    reveal_strlit("__reduce_mean_fwd");
    reveal_strlit("__reduce_max_fwd");
    reveal_strlit("__reduce_var_fwd");
    reveal_strlit("reduce_sum_axis");
    reveal_strlit("reduce_mean_axis");
    reveal_strlit("reduce_max_axis");
    reveal_strlit("reduce_var_axis");
    reveal_with_fuel(text::same_from, 20);
    text::same_texts(b.axis_fwd().0, "__reduce_"@ + name + "_fwd"@, 0);
    text::same_texts(op.text(), "reduce_"@ + name + "_axis"@, 0);
}

/// An operator between tensors calls the function of the library of the
/// operation that it is recorded as, and its kernels have that name too; those
/// with a number on the left are told apart.
pub proof fn operators_are_named_alike(op: BinOp, tag: OpTag)
    requires
        op.optag() == Some(tag.tag() as i32),
        !(op is Matmul),
    ensures
        op.broadcast_fwd() == Some("__broadcast_"@ + tag.text() + "_fwd"@),
        op.elementwise_kernel() == Some("malus_"@ + tag.text()),
        op.scalar_broadcast_kernel(true) == Some("malus_"@ + tag.text() + "_scalar"@),
        op is Sub || op is Div ==> op.scalar_broadcast_kernel(false) == Some(
            "malus_r"@ + tag.text() + "_scalar"@,
        ),
        op is Add || op is Mul ==> op.scalar_broadcast_kernel(false)
            == op.scalar_broadcast_kernel(true),
        tag.text() == match op {
            BinOp::Add => "add"@,
            BinOp::Sub => "sub"@,
            BinOp::Mul => "mul"@,
            _ => "div"@,
        },
{
    reveal_strlit("add");
    reveal_strlit("sub");
    reveal_strlit("mul");
    reveal_strlit("div");
    reveal_strlit("__broadcast_");
    reveal_strlit("_fwd");
    reveal_strlit("malus_");
    reveal_strlit("malus_r");
    reveal_strlit("_scalar");
    reveal_strlit("__broadcast_add_fwd");
    reveal_strlit("malus_add");
    reveal_strlit("malus_add_scalar");
    reveal_strlit("__broadcast_sub_fwd");
    reveal_strlit("malus_sub");
    reveal_strlit("malus_sub_scalar");
    reveal_strlit("__broadcast_mul_fwd");
    reveal_strlit("malus_mul");
    reveal_strlit("malus_mul_scalar");
    reveal_strlit("__broadcast_div_fwd");
    reveal_strlit("malus_div");
    reveal_strlit("malus_div_scalar");
    reveal_strlit("malus_rsub_scalar");
    reveal_strlit("malus_rdiv_scalar");
    reveal_with_fuel(text::same_from, 22);
    let w = tag.text();
    text::same_texts(op.broadcast_fwd()->0, "__broadcast_"@ + w + "_fwd"@, 0);
    text::same_texts(op.elementwise_kernel()->0, "malus_"@ + w, 0);
    text::same_texts(op.scalar_broadcast_kernel(true)->0, "malus_"@ + w + "_scalar"@, 0);
    if op is Sub || op is Div {
        text::same_texts(op.scalar_broadcast_kernel(false)->0, "malus_r"@ + w + "_scalar"@, 0);
    }
}

/// A name means the built-in function that is called so.
pub proof fn builtins_have_names_of_their_own(x: Seq<char>, y: Seq<char>)
    requires
        builtins::builtin_of(x) is Some,
        builtins::builtin_of(x) == builtins::builtin_of(y),
    ensures
        x == y,
{
}

} // verus!
