//! The virtual machine.

pub mod allocation;
pub mod call_laws;
pub mod calls;
pub mod control;
pub mod effects;
pub mod exception;
pub mod field_laws;
pub mod graph;
pub mod heap_laws;
pub mod laws;
pub mod linking;
pub mod lookup_laws;
pub mod machine;
pub mod machine_laws;
pub mod object_laws;
pub mod objects;
pub mod operation;
pub mod plain_laws;
pub mod register;
pub mod run;
pub mod run_laws;
pub mod runtime;
pub mod semantics;
pub mod state;
pub mod statics;
pub mod step_laws;
pub mod stop_laws;
pub mod value;
