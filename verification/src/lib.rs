//! In-memory static single assignment (SSA) representation of one function.
//!
//! The [`dfg::DataFlowGraph`] owns every instruction, value and basic block of
//! a function and hands out stable integer handles to them.  Optimization
//! passes read and mutate the function's code exclusively through that graph:
//! it deduplicates numeric constants and imported entities, tracks value
//! substitutions, inserts instructions under a simplification protocol, and
//! keeps the call-stack provenance of every instruction.

pub mod basic_block;
pub mod call_stack;
pub mod dfg;
pub mod elements;
pub mod instruction;
pub mod types;
pub mod value;
