//! Kernel sources for the GPU: the kernels of a program, and one for every
//! built-in operation that its functions use on tensors.

pub mod builtins;
pub mod compile;
pub mod diagnostics;
pub mod error;
pub mod explicit;
pub mod expr_laws;
pub mod implicit;
pub mod kernel;
pub mod kernel_laws;
pub mod mapped_laws;
pub mod msl;
pub mod reading;
pub mod reading_laws;
pub mod registry;
pub mod spelling_laws;
pub mod stmt_laws;
