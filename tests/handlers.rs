use ethereum_types::U256;
use evm_witness::field::{GoldilocksField, ORDER};
use evm_witness::memory::{
    MemoryAddress, MemoryChannel, MemoryOpKind, MemoryState, CODE_SEGMENT, STACK_SEGMENT,
};
use evm_witness::operation::{
    generate_binary_logic_op, generate_dup, generate_eq, generate_exit_kernel, generate_iszero,
    generate_not, generate_swap, generate_syscall, BinaryLogicOp,
};
use evm_witness::kernel::KernelLabels;
use evm_witness::state::{ProgramError, RegistersState};
use evm_witness::traces::{
    CpuColumnsView, Traces, INPUT0_START, INPUT1_START, IS_AND, IS_OR, IS_XOR, NUM_LOGIC_COLUMNS,
    RESULT_START,
};

fn kernel(jumptable: usize) -> KernelLabels {
    KernelLabels {
        global_labels: vec![
            ("main".to_string(), 0),
            ("syscall_jumptable".to_string(), jumptable),
        ],
    }
}

fn registers(stack_len: u32) -> RegistersState {
    RegistersState::new(0, false, 0, stack_len)
}

fn stack_slot(i: usize) -> MemoryAddress {
    MemoryAddress::new(0, STACK_SEGMENT, i)
}

/// A memory whose stack holds `values`, bottom first.
fn memory_with_stack(values: &[u64]) -> MemoryState {
    let mut m = MemoryState::new();
    for (i, v) in values.iter().enumerate() {
        m.set(stack_slot(i), U256::from(*v));
    }
    m
}

fn stack_contents(m: &MemoryState, len: u32) -> Vec<U256> {
    (0..len as usize).map(|i| m.get(stack_slot(i))).collect()
}

fn words(values: &[u64]) -> Vec<U256> {
    values.iter().map(|v| U256::from(*v)).collect()
}

fn field_mul(a: u64, b: u64) -> u64 {
    ((a as u128 * b as u128) % ORDER as u128) as u64
}

#[test]
fn and_of_five_and_three_scenario() {
    let regs = registers(2);
    let mut memory = memory_with_stack(&[5, 3]);
    let mut traces = Traces::new();
    let out = generate_binary_logic_op(BinaryLogicOp::And, regs, &memory, &mut traces, CpuColumnsView::new())
        .unwrap();
    assert_eq!(out.stack_len, 1);
    memory.apply_ops(&traces.memory_ops);
    assert_eq!(stack_contents(&memory, out.stack_len), words(&[1]));

    assert_eq!(traces.logic_ops.len(), 1);
    let row = &traces.logic_ops[0];
    assert_eq!(row.len(), NUM_LOGIC_COLUMNS);
    assert_eq!(row[IS_AND].0, 1);
    assert_eq!(row[IS_OR].0, 0);
    assert_eq!(row[IS_XOR].0, 0);
    // 3 (top) is the first operand, 5 the second.
    let bits0: Vec<u64> = (0..4).map(|i| row[INPUT0_START + i].0).collect();
    let bits1: Vec<u64> = (0..4).map(|i| row[INPUT1_START + i].0).collect();
    assert_eq!(bits0, vec![1, 1, 0, 0]);
    assert_eq!(bits1, vec![1, 0, 1, 0]);
    assert!((4..256).all(|i| row[INPUT0_START + i].0 == 0 && row[INPUT1_START + i].0 == 0));
    assert_eq!(row[RESULT_START].0, 1);
    assert!((1..8).all(|j| row[RESULT_START + j].0 == 0));

    assert_eq!(traces.memory_ops.len(), 3);
    assert_eq!(traces.cpu.len(), 1);
    assert_eq!(traces.memory_ops[0].address, stack_slot(1));
    assert_eq!(traces.memory_ops[1].address, stack_slot(0));
    assert_eq!(traces.memory_ops[2].address, stack_slot(0));
    assert_eq!(traces.memory_ops[2].kind, MemoryOpKind::Write);
    assert_eq!(traces.memory_ops[2].channel, MemoryChannel::GeneralPurpose(3));
}

#[test]
fn dup_on_empty_stack_underflows_scenario() {
    let regs = registers(0);
    let memory = MemoryState::new();
    let mut traces = Traces::new();
    let r = generate_dup(0, regs, &memory, &mut traces, CpuColumnsView::new());
    assert_eq!(r, Err(ProgramError::StackUnderflow));
    assert_eq!(regs.stack_len, 0);
    assert!(traces.cpu.is_empty() && traces.memory_ops.is_empty() && traces.logic_ops.is_empty());
}

#[test]
fn dup_copies_the_chosen_element() {
    let regs = registers(3);
    let mut memory = memory_with_stack(&[10, 20, 30]);
    let mut traces = Traces::new();
    let out = generate_dup(2, regs, &memory, &mut traces, CpuColumnsView::new()).unwrap();
    assert_eq!(out.stack_len, 4);
    assert_eq!(traces.memory_ops[0].kind, MemoryOpKind::Read);
    assert_eq!(traces.memory_ops[0].address, stack_slot(0));
    assert_eq!(traces.memory_ops[1].address, stack_slot(3));
    memory.apply_ops(&traces.memory_ops);
    assert_eq!(stack_contents(&memory, out.stack_len), words(&[10, 20, 30, 10]));
}

#[test]
fn dup_zero_copies_the_top() {
    let regs = registers(2);
    let mut memory = memory_with_stack(&[1, 2]);
    let mut traces = Traces::new();
    let out = generate_dup(0, regs, &memory, &mut traces, CpuColumnsView::new()).unwrap();
    memory.apply_ops(&traces.memory_ops);
    assert_eq!(stack_contents(&memory, out.stack_len), words(&[1, 2, 2]));
}

#[test]
fn dup_past_the_bottom_underflows() {
    let regs = registers(3);
    let memory = memory_with_stack(&[1, 2, 3]);
    let mut traces = Traces::new();
    assert_eq!(
        generate_dup(3, regs, &memory, &mut traces, CpuColumnsView::new()),
        Err(ProgramError::StackUnderflow)
    );
    assert!(traces.memory_ops.is_empty());
}

#[test]
fn swap_exchanges_and_twice_restores() {
    let regs = registers(4);
    let mut memory = memory_with_stack(&[1, 2, 3, 4]);
    let mut traces = Traces::new();
    let out = generate_swap(1, regs, &memory, &mut traces, CpuColumnsView::new()).unwrap();
    assert_eq!(out, regs);
    assert_eq!(traces.memory_ops.len(), 4);
    memory.apply_ops(&traces.memory_ops);
    assert_eq!(stack_contents(&memory, 4), words(&[1, 4, 3, 2]));

    let mut second = Traces::new();
    let out = generate_swap(1, out, &memory, &mut second, CpuColumnsView::new()).unwrap();
    memory.apply_ops(&second.memory_ops);
    assert_eq!(stack_contents(&memory, out.stack_len), words(&[1, 2, 3, 4]));
}

#[test]
fn swap_needs_two_more_than_n() {
    let regs = registers(2);
    let memory = memory_with_stack(&[1, 2]);
    let mut traces = Traces::new();
    assert_eq!(
        generate_swap(1, regs, &memory, &mut traces, CpuColumnsView::new()),
        Err(ProgramError::StackUnderflow)
    );
    assert!(generate_swap(0, regs, &memory, &mut traces, CpuColumnsView::new()).is_ok());
}

#[test]
fn xor_twice_restores_the_first_operand() {
    let a = 0xdead_beef_u64;
    let b = 0x1234_5678_u64;
    let regs = registers(2);
    let mut memory = memory_with_stack(&[b, a]);
    let mut traces = Traces::new();
    let out = generate_binary_logic_op(BinaryLogicOp::Xor, regs, &memory, &mut traces, CpuColumnsView::new())
        .unwrap();
    memory.apply_ops(&traces.memory_ops);
    assert_eq!(memory.get(stack_slot(0)), U256::from(a ^ b));
    assert_eq!(traces.logic_ops[0][IS_XOR].0, 1);

    memory.set(stack_slot(1), U256::from(b));
    let regs = RegistersState { stack_len: out.stack_len + 1, ..out };
    let mut second = Traces::new();
    generate_binary_logic_op(BinaryLogicOp::Xor, regs, &memory, &mut second, CpuColumnsView::new()).unwrap();
    memory.apply_ops(&second.memory_ops);
    assert_eq!(memory.get(stack_slot(0)), U256::from(a));
}

#[test]
fn and_or_of_equal_operands_are_the_operand() {
    let x = U256::from_dec_str("123456789012345678901234567890123456789").unwrap();
    for op in [BinaryLogicOp::And, BinaryLogicOp::Or] {
        let mut memory = MemoryState::new();
        memory.set(stack_slot(0), x);
        memory.set(stack_slot(1), x);
        let mut traces = Traces::new();
        generate_binary_logic_op(op, registers(2), &memory, &mut traces, CpuColumnsView::new()).unwrap();
        memory.apply_ops(&traces.memory_ops);
        assert_eq!(memory.get(stack_slot(0)), x);
    }
}

#[test]
fn or_combines_bits_across_limbs() {
    let hi = U256::from(1u64) << 200;
    let mut memory = MemoryState::new();
    memory.set(stack_slot(0), hi);
    memory.set(stack_slot(1), U256::from(6u64));
    let mut traces = Traces::new();
    generate_binary_logic_op(BinaryLogicOp::Or, registers(2), &memory, &mut traces, CpuColumnsView::new()).unwrap();
    memory.apply_ops(&traces.memory_ops);
    assert_eq!(memory.get(stack_slot(0)), hi | U256::from(6u64));
    let row = &traces.logic_ops[0];
    assert_eq!(row[IS_OR].0, 1);
    assert_eq!(row[INPUT1_START + 200].0, 1);
    assert_eq!(row[INPUT0_START + 1].0, 1);
    // bit 200 is bit 8 of the low half of limb 3
    assert_eq!(row[RESULT_START + 6].0, 1 << 8);
    assert_eq!(row[RESULT_START + 7].0, 0);
    assert_eq!(row[RESULT_START].0, 6);
}

#[test]
fn binary_logic_on_one_element_underflows() {
    let memory = memory_with_stack(&[1]);
    let mut traces = Traces::new();
    let r = generate_binary_logic_op(BinaryLogicOp::And, registers(1), &memory, &mut traces, CpuColumnsView::new());
    assert_eq!(r, Err(ProgramError::StackUnderflow));
    assert!(traces.logic_ops.is_empty());
}

#[test]
fn not_twice_restores() {
    let mut memory = memory_with_stack(&[0x0f0f]);
    let mut traces = Traces::new();
    let out = generate_not(registers(1), &memory, &mut traces, CpuColumnsView::new()).unwrap();
    assert_eq!(out.stack_len, 1);
    memory.apply_ops(&traces.memory_ops);
    assert_eq!(memory.get(stack_slot(0)), !U256::from(0x0f0fu64));
    let mut second = Traces::new();
    generate_not(out, &memory, &mut second, CpuColumnsView::new()).unwrap();
    memory.apply_ops(&second.memory_ops);
    assert_eq!(memory.get(stack_slot(0)), U256::from(0x0f0fu64));
}

#[test]
fn not_on_empty_stack_underflows() {
    let mut traces = Traces::new();
    let r = generate_not(registers(0), &MemoryState::new(), &mut traces, CpuColumnsView::new());
    assert_eq!(r, Err(ProgramError::StackUnderflow));
}

#[test]
fn iszero_of_zero_is_one_with_zero_witness() {
    let mut memory = memory_with_stack(&[0]);
    let mut traces = Traces::new();
    generate_iszero(registers(1), &memory, &mut traces, CpuColumnsView::new()).unwrap();
    memory.apply_ops(&traces.memory_ops);
    assert_eq!(memory.get(stack_slot(0)), U256::from(1u64));
    assert!(traces.cpu[0].diff_pinv.iter().all(|w| w.0 == 0));
}

#[test]
fn iszero_of_nonzero_is_zero_with_inverse_witness() {
    let mut memory = memory_with_stack(&[5]);
    let mut traces = Traces::new();
    generate_iszero(registers(1), &memory, &mut traces, CpuColumnsView::new()).unwrap();
    memory.apply_ops(&traces.memory_ops);
    assert_eq!(memory.get(stack_slot(0)), U256::from(0u64));
    let pinv = traces.cpu[0].diff_pinv;
    assert_eq!(pinv[0].0, 14757395255531667457);
    assert_eq!(field_mul(5, pinv[0].0), 1);
    assert!(pinv[1..].iter().all(|w| w.0 == 0));
}

#[test]
fn iszero_witness_spreads_over_differing_halves() {
    // halves 0 and 7 are nonzero: each witness times its half times 2 is one
    let x = (U256::from(3u64) << 224) + U256::from(9u64);
    let mut memory = MemoryState::new();
    memory.set(stack_slot(0), x);
    let mut traces = Traces::new();
    generate_iszero(registers(1), &memory, &mut traces, CpuColumnsView::new()).unwrap();
    let pinv = traces.cpu[0].diff_pinv;
    assert_eq!(field_mul(field_mul(9, pinv[0].0), 2), 1);
    assert_eq!(field_mul(field_mul(3, pinv[7].0), 2), 1);
    let dot = (field_mul(9, pinv[0].0) as u128 + field_mul(3, pinv[7].0) as u128) % ORDER as u128;
    assert_eq!(dot, 1);
    assert!(pinv[1..7].iter().all(|w| w.0 == 0));
}

#[test]
fn eq_of_equal_and_unequal_words() {
    let mut memory = memory_with_stack(&[42, 42]);
    let mut traces = Traces::new();
    let out = generate_eq(registers(2), &memory, &mut traces, CpuColumnsView::new()).unwrap();
    assert_eq!(out.stack_len, 1);
    memory.apply_ops(&traces.memory_ops);
    assert_eq!(memory.get(stack_slot(0)), U256::from(1u64));
    assert!(traces.cpu[0].diff_pinv.iter().all(|w| w.0 == 0));

    let mut memory = memory_with_stack(&[7, 3]);
    let mut traces = Traces::new();
    generate_eq(registers(2), &memory, &mut traces, CpuColumnsView::new()).unwrap();
    memory.apply_ops(&traces.memory_ops);
    assert_eq!(memory.get(stack_slot(0)), U256::from(0u64));
    // top minus next: 3 - 7 in the field
    let pinv = traces.cpu[0].diff_pinv;
    assert_eq!(field_mul(ORDER - 4, pinv[0].0), 1);
}

#[test]
fn eq_on_one_element_underflows() {
    let memory = memory_with_stack(&[1]);
    let mut traces = Traces::new();
    assert_eq!(
        generate_eq(registers(1), &memory, &mut traces, CpuColumnsView::new()),
        Err(ProgramError::StackUnderflow)
    );
}

#[test]
fn syscall_reads_three_bytes_and_enters_the_kernel() {
    let kernel = kernel(100);
    let mut memory = memory_with_stack(&[]);
    for (k, b) in [0x01u64, 0x02, 0x03].iter().enumerate() {
        memory.set(MemoryAddress::new(0, CODE_SEGMENT, 102 + k), U256::from(*b));
    }
    let regs = RegistersState::new(0, false, 7, 0);
    let mut traces = Traces::new();
    let out = generate_syscall(2, &kernel, regs, &memory, &mut traces, CpuColumnsView::new()).unwrap();
    assert_eq!(out.program_counter, 0x010203);
    assert!(out.is_kernel);
    assert_eq!(out.stack_len, 1);
    assert_eq!(traces.memory_ops.len(), 4);
    for k in 0..3 {
        assert_eq!(traces.memory_ops[k].kind, MemoryOpKind::Read);
        assert_eq!(traces.memory_ops[k].address, MemoryAddress::new(0, CODE_SEGMENT, 102 + k));
    }
    assert_eq!(traces.memory_ops[3].kind, MemoryOpKind::Write);
    assert_eq!(traces.memory_ops[3].value, U256::from(7u64));
}

#[test]
fn exit_kernel_undoes_syscall() {
    let kernel = kernel(0);
    let mut memory = MemoryState::new();
    memory.set(MemoryAddress::new(0, CODE_SEGMENT, 5), U256::from(0xabu64));
    for (pc, is_kernel) in [(1234u32, true), (u32::MAX, false)] {
        let regs = RegistersState::new(0, is_kernel, pc, 0);
        let mut traces = Traces::new();
        let entered = generate_syscall(5, &kernel, regs, &memory, &mut traces, CpuColumnsView::new()).unwrap();
        assert_eq!(entered.program_counter, 0xab0000);
        let mut after = MemoryState::new();
        after.apply_ops(&traces.memory_ops);
        let expected_word = U256::from(pc as u64) + (U256::from(is_kernel as u64) << 32);
        assert_eq!(after.get(stack_slot(0)), expected_word);
        let mut more = Traces::new();
        let left = generate_exit_kernel(entered, &after, &mut more, CpuColumnsView::new()).unwrap();
        assert_eq!(left.program_counter, pc);
        assert_eq!(left.is_kernel, is_kernel);
        assert_eq!(left.stack_len, 0);
    }
}

#[test]
fn exit_kernel_on_empty_stack_underflows() {
    let mut traces = Traces::new();
    let r = generate_exit_kernel(registers(0), &MemoryState::new(), &mut traces, CpuColumnsView::new());
    assert_eq!(r, Err(ProgramError::StackUnderflow));
}

#[test]
fn channel_columns_mirror_the_access() {
    let memory = memory_with_stack(&[0x1_0000_0002]);
    let mut traces = Traces::new();
    generate_not(registers(1), &memory, &mut traces, CpuColumnsView::new()).unwrap();
    let row = &traces.cpu[0];
    let read = &row.mem_channels[0];
    assert_eq!(read.used.0, 1);
    assert_eq!(read.is_read.0, 1);
    assert_eq!(read.addr_segment.0, STACK_SEGMENT as u64);
    assert_eq!(read.value[0].0, 2);
    assert_eq!(read.value[1].0, 1);
    let write = &row.mem_channels[3];
    assert_eq!(write.is_read.0, 0);
    assert_eq!(write.value[0].0, 0xffff_fffd);
    assert_eq!(row.mem_channels[1].used.0, 0);
    let _ = GoldilocksField::zero();
}

#[test]
fn kernel_labels_lookup() {
    let k = KernelLabels {
        global_labels: vec![
            ("a".to_string(), 1),
            ("syscall_jumptable".to_string(), 40),
            ("a".to_string(), 2),
        ],
    };
    assert_eq!(k.lookup(&"a".to_string()), Some(1));
    assert_eq!(k.lookup(&"syscall_jumptable".to_string()), Some(40));
    assert_eq!(k.lookup(&"missing".to_string()), None);
}
