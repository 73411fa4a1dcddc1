//! An emulator for Dalvik bytecode: the parts of a dex file that running code
//! reads, and the register machine that runs it.

pub mod instruction;
pub mod models;
pub mod name_map;
pub mod scripting;
pub mod search;
pub mod text;
pub mod vm;
