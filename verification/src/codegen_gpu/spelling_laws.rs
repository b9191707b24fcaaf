//! What types and the values of the thread hierarchy are called in kernel
//! sources.

use crate::codegen_gpu::explicit;
use crate::codegen_gpu::explicit::Intrinsic;
use crate::text;
use crate::typed::ScalarTy;
use vstd::prelude::*;

verus! {

/// A type of numbers in the kernel language: how many bits it has, whether it
/// has a sign, and whether it has fractions.
pub struct Kind {
    pub bits: nat,
    pub signed: bool,
    pub fractions: bool,
    /// Bits of the exponent, where there are fractions.
    pub exponent: nat,
}

pub open spec fn integer_kind(bits: nat, signed: bool) -> Option<Kind> {
    Some(Kind { bits, signed, fractions: false, exponent: 0 })
}

pub open spec fn fraction_kind(bits: nat, exponent: nat) -> Option<Kind> {
    Some(Kind { bits, signed: true, fractions: true, exponent })
}

/// The types of the kernel language.
pub open spec fn kind_of(name: Seq<char>) -> Option<Kind> {
    if name.len() > 0 && name[0] == 'u' {
        match kind_of_signed(name.drop_first()) {
            Some(k) => if k.fractions {
                None
            } else {
                integer_kind(k.bits, false)
            },
            None => None,
        }
    } else {
        kind_of_signed(name)
    }
}

pub open spec fn kind_of_signed(name: Seq<char>) -> Option<Kind> {
    if name == seq!['c', 'h', 'a', 'r'] {
        integer_kind(8, true)
    } else if name == seq!['s', 'h', 'o', 'r', 't'] {
        integer_kind(16, true)
    } else if name == seq!['i', 'n', 't'] {
        integer_kind(32, true)
    } else if name == seq!['l', 'o', 'n', 'g'] {
        integer_kind(64, true)
    } else if name == seq!['h', 'a', 'l', 'f'] {
        fraction_kind(16, 5)
    } else if name == seq!['b', 'f', 'l', 'o', 'a', 't'] {
        fraction_kind(16, 8)
    } else if name == seq!['f', 'l', 'o', 'a', 't'] {
        fraction_kind(32, 8)
    } else {
        None
    }
}

/// The kind of numbers that an element type of the language has.
pub open spec fn element_kind(s: ScalarTy) -> Option<Kind> {
    match s {
        ScalarTy::F32 => fraction_kind(32, 8),
        ScalarTy::F16 => fraction_kind(16, 5),
        ScalarTy::Bf16 => fraction_kind(16, 8),
        ScalarTy::I8 => integer_kind(8, true),
        ScalarTy::I16 => integer_kind(16, true),
        ScalarTy::I32 => integer_kind(32, true),
        ScalarTy::I64 => integer_kind(64, true),
        ScalarTy::U8 => integer_kind(8, false),
        ScalarTy::U16 => integer_kind(16, false),
        ScalarTy::U32 => integer_kind(32, false),
        ScalarTy::U64 => integer_kind(64, false),
    }
}

/// An element type is spelled as the type of the kernel language with the same
/// numbers.
pub proof fn types_keep_their_numbers(s: ScalarTy)
    ensures
        kind_of(s.msl()) == element_kind(s),
{
    reveal_strlit("float");
    reveal_strlit("half");
    reveal_strlit("bfloat");
    reveal_strlit("char");
    reveal_strlit("short");
    reveal_strlit("int");
    reveal_strlit("long");
    reveal_strlit("uchar");
    reveal_strlit("ushort");
    reveal_strlit("uint");
    reveal_strlit("ulong");
    let char_ = seq!['c', 'h', 'a', 'r'];
    let short_ = seq!['s', 'h', 'o', 'r', 't'];
    let int_ = seq!['i', 'n', 't'];
    let long_ = seq!['l', 'o', 'n', 'g'];
    let half_ = seq!['h', 'a', 'l', 'f'];
    let bfloat_ = seq!['b', 'f', 'l', 'o', 'a', 't'];
    let float_ = seq!['f', 'l', 'o', 'a', 't'];
    assert(char_[0] != long_[0] && char_[0] != half_[0] && long_[0] != half_[0]);
    assert(short_[0] != float_[0]);
    match s {
        ScalarTy::F32 => {
            assert(s.msl() =~= float_);
        },
        ScalarTy::F16 => {
            assert(s.msl() =~= half_);
        },
        ScalarTy::Bf16 => {
            assert(s.msl() =~= bfloat_);
        },
        ScalarTy::I8 => {
            assert(s.msl() =~= char_);
        },
        ScalarTy::I16 => {
            assert(s.msl() =~= short_);
        },
        ScalarTy::I32 => {
            assert(s.msl() =~= int_);
        },
        ScalarTy::I64 => {
            assert(s.msl() =~= long_);
        },
        ScalarTy::U8 => {
            assert(s.msl().drop_first() =~= char_);
        },
        ScalarTy::U16 => {
            assert(s.msl().drop_first() =~= short_);
        },
        ScalarTy::U32 => {
            assert(s.msl().drop_first() =~= int_);
        },
        ScalarTy::U64 => {
            assert(s.msl().drop_first() =~= long_);
        },
    }
}

/// What the thread hierarchy provides, by what the kernel language calls it:
/// the position of a thread in the grid or in its group, of a group in the grid,
/// and how many threads a group or the grid has.
pub open spec fn attribute_of(x: Intrinsic) -> Seq<char> {
    match x {
        Intrinsic::ThreadId => "thread"@ + "_position_in_"@ + "grid"@,
        Intrinsic::ThreadgroupId => "threadgroup"@ + "_position_in_"@ + "grid"@,
        Intrinsic::ThreadInThreadgroup => "thread"@ + "_position_in_"@ + "threadgroup"@,
        Intrinsic::ThreadsPerThreadgroup => "threads_per_"@ + "threadgroup"@,
        Intrinsic::ThreadsPerGrid => "threads_per_"@ + "grid"@,
    }
}

/// A function of the thread hierarchy reads the parameter that the kernel
/// declares with the attribute for it, and no two share a parameter.
pub proof fn intrinsics_read_their_own(x: Intrinsic, y: Intrinsic)
    ensures
        explicit::intrinsic_holder(x.text()) == Some(x.holder()),
        x.attribute() == attribute_of(x),
        x.holder() == y.holder() ==> x == y,
        x.text() == match x {
            Intrinsic::ThreadId => "thread_id"@,
            Intrinsic::ThreadgroupId => "threadgroup_id"@,
            Intrinsic::ThreadInThreadgroup => "thread_in_threadgroup"@,
            Intrinsic::ThreadsPerThreadgroup => "threads_per_threadgroup"@,
            Intrinsic::ThreadsPerGrid => "threads_per_grid"@,
        },
{
    reveal_strlit("thread_id");
    reveal_strlit("threadgroup_id");
    reveal_strlit("thread_in_threadgroup");
    reveal_strlit("threads_per_threadgroup");
    reveal_strlit("threads_per_grid");
    reveal_strlit("_tid");
    reveal_strlit("_tgid");
    reveal_strlit("_lid");
    reveal_strlit("_tgsize");
    reveal_strlit("_gridsize");
    reveal_strlit("thread");
    reveal_strlit("threadgroup");
    reveal_strlit("threads_per_");
    reveal_strlit("_position_in_");
    reveal_strlit("grid");
    reveal_strlit("thread_position_in_grid");
    reveal_strlit("threadgroup_position_in_grid");
    reveal_strlit("thread_position_in_threadgroup");
    assert("_tid"@[1] != "_lid"@[1]);
    assert("_tid"@.len() == 4 && "_lid"@.len() == 4 && "_tgid"@.len() == 5 && "_tgsize"@.len() == 7
        && "_gridsize"@.len() == 9);
    assert("thread_id"@.len() == 9 && "threadgroup_id"@.len() == 14);
    assert("thread_in_threadgroup"@.len() == 21 && "threads_per_grid"@.len() == 16);
    assert("threads_per_threadgroup"@.len() == 23);
    reveal_with_fuel(text::same_from, 32);
    text::same_texts(x.attribute(), attribute_of(x), 0);
}

} // verus!
