//! Host code generation: lowers typed functions to a linear instruction list
//! that a machine-code back end replays one instruction at a time.

pub mod asking_runs;
pub mod box_builds;
pub mod box_laws;
pub mod box_stmts;
pub mod box_writes;
pub mod builtins;
pub mod code_laws;
pub mod code_laws_expr;
pub mod code_laws_stmt;
pub mod compile;
pub mod float_runs;
pub mod flow;
pub mod function_runs;
pub mod inst;
pub mod layout;
pub mod lower_drop;
pub mod lower_expr;
pub mod lower_stmt;
pub mod machine;
pub mod match_runs;
pub mod meaning;
pub mod name_laws;
pub mod release_layout;
pub mod release_runs;
pub mod releases;
pub mod running;
pub mod scheme_expr;
pub mod scheme_stmt;
pub mod segments;
pub mod state;
pub mod straight;
pub mod symbols;
pub mod training_runs;
