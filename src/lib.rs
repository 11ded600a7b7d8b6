//! Execution-trace generation for a zero-knowledge EVM: per-opcode register
//! updates, memory-access logs and logic sub-table rows.
pub mod access;
pub mod eq_iszero;
pub mod field;
pub mod kernel;
pub mod mds;
pub mod memory;
pub mod operation;
pub mod state;
pub mod theorems;
pub mod traces;
pub mod word;
