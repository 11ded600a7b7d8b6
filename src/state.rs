//! The per-step register state and the one recoverable error.
use vstd::prelude::*;

verus! {

/// The registers that an opcode handler reads and updates.
#[derive(Clone, Copy, Debug, PartialEq, Eq, Structural)]
pub struct RegistersState {
    pub context: usize,
    pub is_kernel: bool,
    pub program_counter: u32,
    pub stack_len: u32,
}

impl RegistersState {
    pub fn new(context: usize, is_kernel: bool, program_counter: u32, stack_len: u32) -> (r: Self)
        ensures
            r == (RegistersState { context, is_kernel, program_counter, stack_len }),
    {
        RegistersState { context, is_kernel, program_counter, stack_len }
    }
}

/// A failure that the caller may handle: the stack is too shallow for the
/// access an instruction makes.
#[derive(Clone, Copy, Debug, PartialEq, Eq, Structural)]
pub enum ProgramError {
    StackUnderflow,
}

} // verus!
