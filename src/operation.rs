//! The instruction handlers: each reads the registers and memory, logs its
//! accesses through fixed channels, and appends one CPU row (and, for the
//! bitwise operations, one logic sub-table row).
use vstd::prelude::*;

use ethereum_types::U256;

use crate::access::{
    from_top, mem_read_gp_with_log_and_fill, mem_write_gp_log_and_fill, stack_pop_with_log_and_fill,
    stack_push_log_and_fill,
};
use crate::eq_iszero::{generate_pinv_diff, is_pinv_witness};
use crate::field::GoldilocksField;
use crate::kernel::{syscall_jumptable_offset, KernelLabels, SYSCALL_JUMPTABLE};
use crate::memory::{
    code_address, read_op, stack_address, write_op, MemoryAddress, MemoryChannel, MemoryOp,
    MemoryState, CODE_SEGMENT, NUM_GP_CHANNELS, STACK_SEGMENT,
};
use crate::state::{ProgramError, RegistersState};
use crate::traces::{
    channel_columns, CpuColumnsView, MemoryChannelView, Traces, INPUT0_START, INPUT1_START, IS_AND,
    IS_OR, IS_XOR, NUM_LOGIC_COLUMNS, RESULT_START,
};
use crate::word::{
    decode_kernel_exit, encode_kernel_exit, half_limb, half_limbs, is_kernel_exit_word, kernel_exit_word, small_word,
    word_and, word_bit, word_bit_at, word_eq, word_is_zero, word_not, word_or, word_xor,
};

verus! {

/// A decoded instruction.
#[derive(Clone, Copy, Debug, PartialEq, Eq, Structural)]
pub enum Operation {
    Dup(u8),
    Swap(u8),
    Iszero,
    Not,
    Syscall(u8),
    Eq,
    ExitKernel,
    BinaryLogic(BinaryLogicOp),
    NotImplemented,
}

/// The bitwise operations of the logic sub-table.
#[derive(Clone, Copy, Debug, PartialEq, Eq, Structural)]
pub enum BinaryLogicOp {
    And,
    Or,
    Xor,
}

/// One 64-bit limb of a bitwise operation.
pub open spec fn logic_limb(op: BinaryLogicOp, x: u64, y: u64) -> u64 {
    match op {
        BinaryLogicOp::And => x & y,
        BinaryLogicOp::Or => x | y,
        BinaryLogicOp::Xor => x ^ y,
    }
}

/// The bitwise operation `op` over all 256 bits.
pub open spec fn logic_word(op: BinaryLogicOp, a: U256, b: U256) -> U256 {
    U256(
        [
            logic_limb(op, a.0[0], b.0[0]),
            logic_limb(op, a.0[1], b.0[1]),
            logic_limb(op, a.0[2], b.0[2]),
            logic_limb(op, a.0[3], b.0[3]),
        ],
    )
}

/// The bitwise complement over all 256 bits.
pub open spec fn not_word(a: U256) -> U256 {
    U256([!a.0[0], !a.0[1], !a.0[2], !a.0[3]])
}

/// All 256 bits are zero.
pub open spec fn is_zero_word(a: U256) -> bool {
    a.0[0] == 0 && a.0[1] == 0 && a.0[2] == 0 && a.0[3] == 0
}

/// One as a word if `b` holds, else zero.
pub open spec fn bool_word(b: bool) -> U256 {
    small_word(if b { 1u64 } else { 0u64 })
}

impl BinaryLogicOp {
    pub fn result(&self, a: U256, b: U256) -> (r: U256)
        ensures
            r == logic_word(*self, a, b),
    {
        match self {
            BinaryLogicOp::And => word_and(a, b),
            BinaryLogicOp::Or => word_or(a, b),
            BinaryLogicOp::Xor => word_xor(a, b),
        }
    }
}

/// One as a field element if `b` holds, else zero.
pub open spec fn bit_column(b: bool) -> u64 {
    if b { 1 } else { 0 }
}

/// `row` is the logic sub-table row of `op` on `in0`, `in1` giving `result`:
/// a one-hot selector, the bits of both operands, and the result in 32-bit
/// halves.
pub open spec fn is_logic_row(row: Seq<GoldilocksField>, op: BinaryLogicOp, in0: U256, in1: U256, result: U256) -> bool {
    &&& row.len() == NUM_LOGIC_COLUMNS
    &&& row[IS_AND as int].0 == bit_column(op == BinaryLogicOp::And)
    &&& row[IS_OR as int].0 == bit_column(op == BinaryLogicOp::Or)
    &&& row[IS_XOR as int].0 == bit_column(op == BinaryLogicOp::Xor)
    &&& forall|i: int| 0 <= i < 256 ==> row[INPUT0_START + i].0 == bit_column(#[trigger] word_bit(in0, i))
    &&& forall|i: int| 0 <= i < 256 ==> row[INPUT1_START + i].0 == bit_column(#[trigger] word_bit(in1, i))
    &&& forall|j: int| 0 <= j < 8 ==> row[RESULT_START + j].0 == #[trigger] half_limb(result, j) as u64
}

/// Builds the logic sub-table row of `op` on `in0`, `in1` giving `result`.
pub fn make_logic_row(op: BinaryLogicOp, in0: U256, in1: U256, result: U256) -> (r: Vec<GoldilocksField>)
    ensures
        is_logic_row(r@, op, in0, in1, result),
{
    let mut row: Vec<GoldilocksField> = vec![GoldilocksField::zero(); NUM_LOGIC_COLUMNS];
    let selector = match op {
        BinaryLogicOp::And => IS_AND,
        BinaryLogicOp::Or => IS_OR,
        BinaryLogicOp::Xor => IS_XOR,
    };
    row[selector] = GoldilocksField::one();
    let mut i: usize = 0;
    while i < 256
        invariant
            i <= 256,
            row@.len() == NUM_LOGIC_COLUMNS,
            row@[IS_AND as int].0 == bit_column(op == BinaryLogicOp::And),
            row@[IS_OR as int].0 == bit_column(op == BinaryLogicOp::Or),
            row@[IS_XOR as int].0 == bit_column(op == BinaryLogicOp::Xor),
            forall|k: int| 0 <= k < i ==> row@[INPUT0_START + k].0 == bit_column(#[trigger] word_bit(in0, k)),
            forall|k: int| 0 <= k < i ==> row@[INPUT1_START + k].0 == bit_column(#[trigger] word_bit(in1, k)),
        decreases 256 - i,
    {
        row[INPUT0_START + i] = GoldilocksField::from_bool(word_bit_at(&in0, i));
        row[INPUT1_START + i] = GoldilocksField::from_bool(word_bit_at(&in1, i));
        i = i + 1;
    }
    let halves = half_limbs(&result);
    let mut j: usize = 0;
    while j < 8
        invariant
            j <= 8,
            row@.len() == NUM_LOGIC_COLUMNS,
            row@[IS_AND as int].0 == bit_column(op == BinaryLogicOp::And),
            row@[IS_OR as int].0 == bit_column(op == BinaryLogicOp::Or),
            row@[IS_XOR as int].0 == bit_column(op == BinaryLogicOp::Xor),
            forall|k: int| 0 <= k < 256 ==> row@[INPUT0_START + k].0 == bit_column(#[trigger] word_bit(in0, k)),
            forall|k: int| 0 <= k < 256 ==> row@[INPUT1_START + k].0 == bit_column(#[trigger] word_bit(in1, k)),
            forall|k: int| 0 <= k < 8 ==> #[trigger] halves[k] == half_limb(result, k),
            forall|k: int| 0 <= k < j ==> row@[RESULT_START + k].0 == #[trigger] half_limb(result, k) as u64,
        decreases 8 - j,
    {
        row[RESULT_START + j] = GoldilocksField::from_canonical_u32(halves[j]);
        j = j + 1;
    }
    row
}

/// Nothing was appended to any trace.
pub open spec fn traces_unchanged(before: Traces, after: Traces) -> bool {
    &&& after.cpu@ == before.cpu@
    &&& after.logic_ops@ == before.logic_ops@
    &&& after.memory_ops@ == before.memory_ops@
}

/// `ops` were appended to the memory log, one CPU row to the CPU trace, and
/// nothing to the logic trace.
pub open spec fn step_appended(before: Traces, after: Traces, ops: Seq<MemoryOp>) -> bool {
    &&& after.memory_ops@ == before.memory_ops@ + ops
    &&& after.cpu@.len() == before.cpu@.len() + 1
    &&& after.cpu@.drop_last() == before.cpu@
}

/// The memory channels of CPU row `after` are those of `before`, but for the
/// ones in `filled`, which hold the given columns.
pub open spec fn row_filled(before: CpuColumnsView, after: CpuColumnsView, filled: Map<int, MemoryChannelView>) -> bool {
    forall|i: int|
        0 <= i < NUM_GP_CHANNELS ==> #[trigger] after.mem_channels[i] == if filled.contains_key(i) {
            filled[i]
        } else {
            before.mem_channels[i]
        }
}

/// The channel through which a general-purpose access `n` is made.
pub open spec fn gp(n: int) -> MemoryChannel {
    MemoryChannel::GeneralPurpose(n as usize)
}

/// Pops two words, applies `op`, pushes the result, and records the bitwise
/// decomposition in the logic sub-table.
pub fn generate_binary_logic_op(
    op: BinaryLogicOp,
    registers_state: RegistersState,
    memory_state: &MemoryState,
    traces: &mut Traces,
    row: CpuColumnsView,
) -> (r: Result<RegistersState, ProgramError>)
    ensures
        (registers_state.stack_len < 2) <==> r is Err,
        r is Err ==> r == Err::<RegistersState, ProgramError>(ProgramError::StackUnderflow)
            && traces_unchanged(*old(traces), *final(traces)),
        r matches Ok(new_state) ==> {
            let clock = old(traces).spec_clock();
            let a0 = from_top(registers_state, 0);
            let a1 = from_top(registers_state, 1);
            let in0 = memory_state.value(a0);
            let in1 = memory_state.value(a1);
            let res = logic_word(op, in0, in1);
            let out = stack_address(registers_state.context, registers_state.stack_len - 2);
            &&& new_state == (RegistersState { stack_len: (registers_state.stack_len - 1) as u32, ..registers_state })
            &&& step_appended(*old(traces), *final(traces), seq![
                read_op(gp(0), clock, a0, in0),
                read_op(gp(1), clock, a1, in1),
                write_op(gp(3), clock, out, res),
            ])
            &&& final(traces).logic_ops@.len() == old(traces).logic_ops@.len() + 1
            &&& final(traces).logic_ops@.drop_last() == old(traces).logic_ops@
            &&& is_logic_row(final(traces).logic_ops@.last()@, op, in0, in1, res)
            &&& row_filled(row, final(traces).cpu@.last(), map![
                0int => channel_columns(true, a0, in0),
                1int => channel_columns(true, a1, in1),
                3int => channel_columns(false, out, res),
            ])
            &&& final(traces).cpu@.last().diff_pinv == row.diff_pinv
        },
{
    let mut registers_state = registers_state;
    let mut row = row;
    let popped = match stack_pop_with_log_and_fill(2, &mut registers_state, memory_state, traces, &mut row) {
        Ok(v) => v,
        Err(e) => return Err(e),
    };
    let (in0, log_in0) = popped[0];
    let (in1, log_in1) = popped[1];
    let result = op.result(in0, in1);
    let log_out = stack_push_log_and_fill(&mut registers_state, traces, &mut row, result);

    traces.push_logic(make_logic_row(op, in0, in1, result));
    traces.push_memory(log_in0);
    traces.push_memory(log_in1);
    traces.push_memory(log_out);
    traces.push_cpu(row);
    proof {
        assert(traces.memory_ops@ =~= old(traces).memory_ops@ + seq![log_in0, log_in1, log_out]);
        assert(traces.cpu@.drop_last() =~= old(traces).cpu@);
        assert(traces.logic_ops@.drop_last() =~= old(traces).logic_ops@);
    }
    Ok(registers_state)
}

/// The accesses of a dup on memory `m`: a read of the element `n` places
/// below the top, then a push of its value.
pub open spec fn dup_ops(n: u8, regs: RegistersState, m: spec_fn(MemoryAddress) -> U256, clock: usize) -> Seq<MemoryOp> {
    let src = from_top(regs, n as int);
    seq![
        read_op(gp(0), clock, src, m(src)),
        write_op(gp(3), clock, stack_address(regs.context, regs.stack_len as int), m(src)),
    ]
}

/// The accesses of a swap on memory `m`: reads of the top and of the element
/// `n + 1` places below it, then the two written back exchanged.
pub open spec fn swap_ops(n: u8, regs: RegistersState, m: spec_fn(MemoryAddress) -> U256, clock: usize) -> Seq<MemoryOp> {
    let top = from_top(regs, 0);
    let other = from_top(regs, n + 1);
    seq![
        read_op(gp(0), clock, top, m(top)),
        read_op(gp(1), clock, other, m(other)),
        write_op(gp(2), clock, other, m(top)),
        write_op(gp(3), clock, top, m(other)),
    ]
}

/// Copies the element `n + 1` places from the top (the top itself for
/// `n == 0`) onto the stack.
pub fn generate_dup(
    n: u8,
    registers_state: RegistersState,
    memory_state: &MemoryState,
    traces: &mut Traces,
    row: CpuColumnsView,
) -> (r: Result<RegistersState, ProgramError>)
    requires
        registers_state.stack_len < u32::MAX,
    ensures
        (registers_state.stack_len < n + 1) <==> r is Err,
        r is Err ==> r == Err::<RegistersState, ProgramError>(ProgramError::StackUnderflow)
            && traces_unchanged(*old(traces), *final(traces)),
        r matches Ok(new_state) ==> {
            let clock = old(traces).spec_clock();
            let src = from_top(registers_state, n as int);
            let val = memory_state.value(src);
            let out = stack_address(registers_state.context, registers_state.stack_len as int);
            &&& new_state == (RegistersState { stack_len: (registers_state.stack_len + 1) as u32, ..registers_state })
            &&& step_appended(*old(traces), *final(traces), dup_ops(n, registers_state, memory_state.view(), clock))
            &&& final(traces).logic_ops@ == old(traces).logic_ops@
            &&& row_filled(row, final(traces).cpu@.last(), map![
                0int => channel_columns(true, src, val),
                3int => channel_columns(false, out, val),
            ])
            &&& final(traces).cpu@.last().diff_pinv == row.diff_pinv
        },
{
    let mut registers_state = registers_state;
    let mut row = row;
    let other_addr_lo = match registers_state.stack_len.checked_sub(1 + (n as u32)) {
        Some(v) => v,
        None => return Err(ProgramError::StackUnderflow),
    };
    let other_addr = MemoryAddress::new(registers_state.context, STACK_SEGMENT, other_addr_lo as usize);

    let (val, log_in) = mem_read_gp_with_log_and_fill(0, other_addr, memory_state, traces, &mut row);
    let log_out = stack_push_log_and_fill(&mut registers_state, traces, &mut row, val);

    traces.push_memory(log_in);
    traces.push_memory(log_out);
    traces.push_cpu(row);
    proof {
        assert(traces.memory_ops@ =~= old(traces).memory_ops@ + seq![log_in, log_out]);
        assert(traces.cpu@.drop_last() =~= old(traces).cpu@);
    }
    Ok(registers_state)
}

/// Exchanges the top element with the one `n + 1` places below it.
pub fn generate_swap(
    n: u8,
    registers_state: RegistersState,
    memory_state: &MemoryState,
    traces: &mut Traces,
    row: CpuColumnsView,
) -> (r: Result<RegistersState, ProgramError>)
    ensures
        (registers_state.stack_len < n + 2) <==> r is Err,
        r is Err ==> r == Err::<RegistersState, ProgramError>(ProgramError::StackUnderflow)
            && traces_unchanged(*old(traces), *final(traces)),
        r matches Ok(new_state) ==> {
            let clock = old(traces).spec_clock();
            let top = from_top(registers_state, 0);
            let other = from_top(registers_state, n + 1);
            let in0 = memory_state.value(top);
            let in1 = memory_state.value(other);
            &&& new_state == registers_state
            &&& step_appended(*old(traces), *final(traces), swap_ops(n, registers_state, memory_state.view(), clock))
            &&& final(traces).logic_ops@ == old(traces).logic_ops@
            &&& row_filled(row, final(traces).cpu@.last(), map![
                0int => channel_columns(true, top, in0),
                1int => channel_columns(true, other, in1),
                2int => channel_columns(false, other, in0),
                3int => channel_columns(false, top, in1),
            ])
            &&& final(traces).cpu@.last().diff_pinv == row.diff_pinv
        },
{
    let mut registers_state = registers_state;
    let mut row = row;
    let other_addr_lo = match registers_state.stack_len.checked_sub(2 + (n as u32)) {
        Some(v) => v,
        None => return Err(ProgramError::StackUnderflow),
    };
    let other_addr = MemoryAddress::new(registers_state.context, STACK_SEGMENT, other_addr_lo as usize);

    let popped = match stack_pop_with_log_and_fill(1, &mut registers_state, memory_state, traces, &mut row) {
        Ok(v) => v,
        Err(e) => return Err(e),
    };
    let (in0, log_in0) = popped[0];
    let (in1, log_in1) = mem_read_gp_with_log_and_fill(1, other_addr, memory_state, traces, &mut row);
    let log_out0 = mem_write_gp_log_and_fill(NUM_GP_CHANNELS - 2, other_addr, traces, &mut row, in0);
    let log_out1 = stack_push_log_and_fill(&mut registers_state, traces, &mut row, in1);

    traces.push_memory(log_in0);
    traces.push_memory(log_in1);
    traces.push_memory(log_out0);
    traces.push_memory(log_out1);
    traces.push_cpu(row);
    proof {
        assert(traces.memory_ops@ =~= old(traces).memory_ops@ + seq![log_in0, log_in1, log_out0, log_out1]);
        assert(traces.cpu@.drop_last() =~= old(traces).cpu@);
    }
    Ok(registers_state)
}

/// Replaces the top word by its bitwise complement.
pub fn generate_not(
    registers_state: RegistersState,
    memory_state: &MemoryState,
    traces: &mut Traces,
    row: CpuColumnsView,
) -> (r: Result<RegistersState, ProgramError>)
    ensures
        (registers_state.stack_len < 1) <==> r is Err,
        r is Err ==> r == Err::<RegistersState, ProgramError>(ProgramError::StackUnderflow)
            && traces_unchanged(*old(traces), *final(traces)),
        r matches Ok(new_state) ==> {
            let clock = old(traces).spec_clock();
            let top = from_top(registers_state, 0);
            let x = memory_state.value(top);
            &&& new_state == registers_state
            &&& step_appended(*old(traces), *final(traces), seq![
                read_op(gp(0), clock, top, x),
                write_op(gp(3), clock, top, not_word(x)),
            ])
            &&& final(traces).logic_ops@ == old(traces).logic_ops@
            &&& row_filled(row, final(traces).cpu@.last(), map![
                0int => channel_columns(true, top, x),
                3int => channel_columns(false, top, not_word(x)),
            ])
            &&& final(traces).cpu@.last().diff_pinv == row.diff_pinv
        },
{
    let mut registers_state = registers_state;
    let mut row = row;
    let popped = match stack_pop_with_log_and_fill(1, &mut registers_state, memory_state, traces, &mut row) {
        Ok(v) => v,
        Err(e) => return Err(e),
    };
    let (x, log_in) = popped[0];
    let result = word_not(x);
    let log_out = stack_push_log_and_fill(&mut registers_state, traces, &mut row, result);

    traces.push_memory(log_in);
    traces.push_memory(log_out);
    traces.push_cpu(row);
    proof {
        assert(traces.memory_ops@ =~= old(traces).memory_ops@ + seq![log_in, log_out]);
        assert(traces.cpu@.drop_last() =~= old(traces).cpu@);
    }
    Ok(registers_state)
}

/// Replaces the top word `x` by one if `x` is zero and by zero otherwise, and
/// writes the witness that certifies which.
pub fn generate_iszero(
    registers_state: RegistersState,
    memory_state: &MemoryState,
    traces: &mut Traces,
    row: CpuColumnsView,
) -> (r: Result<RegistersState, ProgramError>)
    ensures
        (registers_state.stack_len < 1) <==> r is Err,
        r is Err ==> r == Err::<RegistersState, ProgramError>(ProgramError::StackUnderflow)
            && traces_unchanged(*old(traces), *final(traces)),
        r matches Ok(new_state) ==> {
            let clock = old(traces).spec_clock();
            let top = from_top(registers_state, 0);
            let x = memory_state.value(top);
            let res = bool_word(is_zero_word(x));
            &&& new_state == registers_state
            &&& step_appended(*old(traces), *final(traces), seq![
                read_op(gp(0), clock, top, x),
                write_op(gp(3), clock, top, res),
            ])
            &&& final(traces).logic_ops@ == old(traces).logic_ops@
            &&& row_filled(row, final(traces).cpu@.last(), map![
                0int => channel_columns(true, top, x),
                3int => channel_columns(false, top, res),
            ])
            &&& is_pinv_witness(x, small_word(0), final(traces).cpu@.last().diff_pinv)
        },
{
    let mut registers_state = registers_state;
    let mut row = row;
    let popped = match stack_pop_with_log_and_fill(1, &mut registers_state, memory_state, traces, &mut row) {
        Ok(v) => v,
        Err(e) => return Err(e),
    };
    let (x, log_in) = popped[0];
    let is_zero = word_is_zero(&x);
    let result = U256([if is_zero { 1 } else { 0 }, 0, 0, 0]);
    let log_out = stack_push_log_and_fill(&mut registers_state, traces, &mut row, result);

    generate_pinv_diff(&x, &U256([0, 0, 0, 0]), &mut row);

    traces.push_memory(log_in);
    traces.push_memory(log_out);
    traces.push_cpu(row);
    proof {
        assert(traces.memory_ops@ =~= old(traces).memory_ops@ + seq![log_in, log_out]);
        assert(traces.cpu@.drop_last() =~= old(traces).cpu@);
    }
    Ok(registers_state)
}

/// Pops two words and pushes one if they are equal and zero otherwise, and
/// writes the witness that certifies which.
pub fn generate_eq(
    registers_state: RegistersState,
    memory_state: &MemoryState,
    traces: &mut Traces,
    row: CpuColumnsView,
) -> (r: Result<RegistersState, ProgramError>)
    ensures
        (registers_state.stack_len < 2) <==> r is Err,
        r is Err ==> r == Err::<RegistersState, ProgramError>(ProgramError::StackUnderflow)
            && traces_unchanged(*old(traces), *final(traces)),
        r matches Ok(new_state) ==> {
            let clock = old(traces).spec_clock();
            let a0 = from_top(registers_state, 0);
            let a1 = from_top(registers_state, 1);
            let in0 = memory_state.value(a0);
            let in1 = memory_state.value(a1);
            let res = bool_word(in0 == in1);
            let out = stack_address(registers_state.context, registers_state.stack_len - 2);
            &&& new_state == (RegistersState { stack_len: (registers_state.stack_len - 1) as u32, ..registers_state })
            &&& step_appended(*old(traces), *final(traces), seq![
                read_op(gp(0), clock, a0, in0),
                read_op(gp(1), clock, a1, in1),
                write_op(gp(3), clock, out, res),
            ])
            &&& final(traces).logic_ops@ == old(traces).logic_ops@
            &&& row_filled(row, final(traces).cpu@.last(), map![
                0int => channel_columns(true, a0, in0),
                1int => channel_columns(true, a1, in1),
                3int => channel_columns(false, out, res),
            ])
            &&& is_pinv_witness(in0, in1, final(traces).cpu@.last().diff_pinv)
        },
{
    let mut registers_state = registers_state;
    let mut row = row;
    let popped = match stack_pop_with_log_and_fill(2, &mut registers_state, memory_state, traces, &mut row) {
        Ok(v) => v,
        Err(e) => return Err(e),
    };
    let (in0, log_in0) = popped[0];
    let (in1, log_in1) = popped[1];
    let eq = word_eq(&in0, &in1);
    let result = U256([if eq { 1 } else { 0 }, 0, 0, 0]);
    let log_out = stack_push_log_and_fill(&mut registers_state, traces, &mut row, result);

    generate_pinv_diff(&in0, &in1, &mut row);

    traces.push_memory(log_in0);
    traces.push_memory(log_in1);
    traces.push_memory(log_out);
    traces.push_cpu(row);
    proof {
        assert(traces.memory_ops@ =~= old(traces).memory_ops@ + seq![log_in0, log_in1, log_out]);
        assert(traces.cpu@.drop_last() =~= old(traces).cpu@);
    }
    Ok(registers_state)
}

/// A word that holds a single byte.
pub open spec fn is_byte(w: U256) -> bool {
    w.0[0] < 256 && w.0[1] == 0 && w.0[2] == 0 && w.0[3] == 0
}

/// The handler address stored big-endian in the three code bytes at `at`.
pub open spec fn handler_address(m: spec_fn(MemoryAddress) -> U256, at: int) -> u32 {
    (m(code_address(at)).0[0] * 65536 + m(code_address(at + 1)).0[0] * 256 + m(code_address(at + 2)).0[0]) as u32
}

/// Enters the kernel: reads the handler address for `opcode` from the
/// kernel's jump table, pushes the return word (program counter and mode),
/// and jumps there in kernel mode.
pub fn generate_syscall(
    opcode: u8,
    kernel: &KernelLabels,
    registers_state: RegistersState,
    memory_state: &MemoryState,
    traces: &mut Traces,
    row: CpuColumnsView,
) -> (r: Result<RegistersState, ProgramError>)
    requires
        syscall_jumptable_offset(kernel) matches Some(base) && base + opcode + 2 <= u32::MAX && forall|k: int|
            0 <= k < 3 ==> is_byte(#[trigger] memory_state.value(code_address(base + opcode + k))),
        registers_state.stack_len < u32::MAX,
    ensures
        r matches Ok(new_state) && {
            let clock = old(traces).spec_clock();
            let at = syscall_jumptable_offset(kernel).unwrap() + opcode;
            let b0 = memory_state.value(code_address(at));
            let b1 = memory_state.value(code_address(at + 1));
            let b2 = memory_state.value(code_address(at + 2));
            let info = kernel_exit_word(registers_state.program_counter, registers_state.is_kernel);
            let out = stack_address(registers_state.context, registers_state.stack_len as int);
            &&& new_state == (RegistersState {
                program_counter: handler_address(memory_state.view(), at),
                is_kernel: true,
                stack_len: (registers_state.stack_len + 1) as u32,
                ..registers_state
            })
            &&& step_appended(*old(traces), *final(traces), seq![
                read_op(gp(0), clock, code_address(at), b0),
                read_op(gp(1), clock, code_address(at + 1), b1),
                read_op(gp(2), clock, code_address(at + 2), b2),
                write_op(gp(3), clock, out, info),
            ])
            &&& final(traces).logic_ops@ == old(traces).logic_ops@
            &&& row_filled(row, final(traces).cpu@.last(), map![
                0int => channel_columns(true, code_address(at), b0),
                1int => channel_columns(true, code_address(at + 1), b1),
                2int => channel_columns(true, code_address(at + 2), b2),
                3int => channel_columns(false, out, info),
            ])
            &&& final(traces).cpu@.last().diff_pinv == row.diff_pinv
        },
{
    let mut registers_state = registers_state;
    let mut row = row;
    let handler_jumptable_addr = kernel.lookup(&SYSCALL_JUMPTABLE.to_owned()).unwrap() as u32;
    let handler_addr_addr = handler_jumptable_addr + (opcode as u32);
    let (handler_addr0, log_in0) = mem_read_gp_with_log_and_fill(
        0,
        MemoryAddress::new(0, CODE_SEGMENT, handler_addr_addr as usize),
        memory_state,
        traces,
        &mut row,
    );
    let (handler_addr1, log_in1) = mem_read_gp_with_log_and_fill(
        1,
        MemoryAddress::new(0, CODE_SEGMENT, (handler_addr_addr + 1) as usize),
        memory_state,
        traces,
        &mut row,
    );
    let (handler_addr2, log_in2) = mem_read_gp_with_log_and_fill(
        2,
        MemoryAddress::new(0, CODE_SEGMENT, (handler_addr_addr + 2) as usize),
        memory_state,
        traces,
        &mut row,
    );
    proof {
        let at = handler_addr_addr as int;
        assert(is_byte(memory_state.value(code_address(at + 0))));
        assert(is_byte(memory_state.value(code_address(at + 1))));
        assert(is_byte(memory_state.value(code_address(at + 2))));
        assert(code_address(at + 0) == code_address(at));
    }
    let new_program_counter: u32 = (handler_addr0.0[0] as u32) * 65536 + (handler_addr1.0[0] as u32) * 256
        + (handler_addr2.0[0] as u32);

    let syscall_info = encode_kernel_exit(registers_state.program_counter, registers_state.is_kernel);
    let log_out = stack_push_log_and_fill(&mut registers_state, traces, &mut row, syscall_info);

    registers_state.program_counter = new_program_counter;
    registers_state.is_kernel = true;

    traces.push_memory(log_in0);
    traces.push_memory(log_in1);
    traces.push_memory(log_in2);
    traces.push_memory(log_out);
    traces.push_cpu(row);
    proof {
        assert(traces.memory_ops@ =~= old(traces).memory_ops@ + seq![log_in0, log_in1, log_in2, log_out]);
        assert(traces.cpu@.drop_last() =~= old(traces).cpu@);
    }
    Ok(registers_state)
}

/// Leaves the kernel: pops the return word that a system call pushed and
/// restores the program counter and the mode from it.
pub fn generate_exit_kernel(
    registers_state: RegistersState,
    memory_state: &MemoryState,
    traces: &mut Traces,
    row: CpuColumnsView,
) -> (r: Result<RegistersState, ProgramError>)
    requires
        registers_state.stack_len >= 1 ==> is_kernel_exit_word(memory_state.value(from_top(registers_state, 0))),
    ensures
        (registers_state.stack_len < 1) <==> r is Err,
        r is Err ==> r == Err::<RegistersState, ProgramError>(ProgramError::StackUnderflow)
            && traces_unchanged(*old(traces), *final(traces)),
        r matches Ok(new_state) ==> {
            let clock = old(traces).spec_clock();
            let top = from_top(registers_state, 0);
            let w = memory_state.value(top);
            &&& new_state == (RegistersState {
                program_counter: w.0[0] as u32,
                is_kernel: w.0[0] >> 32u64 == 1,
                stack_len: (registers_state.stack_len - 1) as u32,
                ..registers_state
            })
            &&& step_appended(*old(traces), *final(traces), seq![read_op(gp(0), clock, top, w)])
            &&& final(traces).logic_ops@ == old(traces).logic_ops@
            &&& row_filled(row, final(traces).cpu@.last(), map![0int => channel_columns(true, top, w)])
            &&& final(traces).cpu@.last().diff_pinv == row.diff_pinv
        },
{
    let mut registers_state = registers_state;
    let mut row = row;
    let popped = match stack_pop_with_log_and_fill(1, &mut registers_state, memory_state, traces, &mut row) {
        Ok(v) => v,
        Err(e) => return Err(e),
    };
    let (kexit_info, log_in) = popped[0];
    let (program_counter, is_kernel_mode) = decode_kernel_exit(&kexit_info).unwrap();

    registers_state.program_counter = program_counter;
    registers_state.is_kernel = is_kernel_mode;

    traces.push_memory(log_in);
    traces.push_cpu(row);
    proof {
        assert(traces.memory_ops@ =~= old(traces).memory_ops@ + seq![log_in]);
        assert(traces.cpu@.drop_last() =~= old(traces).cpu@);
    }
    Ok(registers_state)
}

} // verus!
