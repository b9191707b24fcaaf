//! Compiler and runtime core of a small tensor language.

use vstd::prelude::*;

pub mod ast;
pub mod cli;
pub mod codegen_cpu;
pub mod codegen_gpu;
pub mod lint;
pub mod loader;
pub mod loader_laws;
pub mod numbers;
pub mod runtime;
pub mod sorted_map;
pub mod text;
pub mod typed;
