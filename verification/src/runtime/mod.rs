//! Runtime of compiled programs: tensor metadata, buffer reuse, gradient
//! recording, shapes, random numbers and counters.

pub mod aggregate;
pub mod axes;
pub mod backward;
pub mod backward_frame;
pub mod backward_laws;
pub mod bench;
pub mod bindings;
pub mod buffer;
pub mod counters;
pub mod dispatch;
pub mod fold;
pub mod gens;
pub mod gradients;
pub mod kernel_cache;
pub mod layout;
pub mod lines;
pub mod lookup;
pub mod matmul;
pub mod memory;
pub mod memory_laws;
pub mod memory_ops;
pub mod memory_traces;
pub mod permute;
pub mod pool;
pub mod print;
pub mod random;
pub mod shape;
pub mod slots;
pub mod strio;
pub mod tags;
pub mod tape;
