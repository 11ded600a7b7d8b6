use ethereum_types::U256;
use evm_witness::access::stack_pop_with_log_and_fill;
use evm_witness::field::{GoldilocksField, ORDER};
use evm_witness::mds::{combine_m4_prods, external_matrix_with_u64_arithmetic, matrix_mul_block};
use evm_witness::memory::MemoryState;
use evm_witness::state::{ProgramError, RegistersState};
use evm_witness::traces::{CpuColumnsView, Traces};
use evm_witness::word::{decode_kernel_exit, encode_kernel_exit, half_limbs, InvariantViolation};

#[test]
fn field_subtraction_wraps_modulo_the_order() {
    assert_eq!(GoldilocksField(0).sub(GoldilocksField(1)).0, ORDER - 1);
    assert_eq!(GoldilocksField(10).sub(GoldilocksField(3)).0, 7);
    assert_eq!(GoldilocksField(ORDER + 2).sub(GoldilocksField(1)).0, 1);
}

#[test]
fn field_multiplication_reduces() {
    assert_eq!(GoldilocksField(ORDER - 1).mul(GoldilocksField(ORDER - 1)).0, 1);
    assert_eq!(GoldilocksField(1 << 32).mul(GoldilocksField(1 << 32)).0, (1u64 << 32) - 1);
}

#[test]
fn field_inverses() {
    assert!(GoldilocksField(0).try_inverse().is_none());
    assert!(GoldilocksField(ORDER).try_inverse().is_none());
    assert_eq!(GoldilocksField(2).try_inverse().unwrap().0, 9223372034707292161);
    assert_eq!(GoldilocksField(1).try_inverse().unwrap().0, 1);
    for v in [3u64, 7, 0xffff_ffff, ORDER - 1, 123_456_789_123] {
        let inv = GoldilocksField(v).try_inverse().unwrap();
        assert_eq!(GoldilocksField(v).mul(inv).0, 1);
    }
}

#[test]
fn field_canonical_form() {
    assert_eq!(GoldilocksField(ORDER + 5).to_canonical_u64(), 5);
    assert_eq!(GoldilocksField::from_bool(true).0, 1);
    assert_eq!(GoldilocksField::from_canonical_u32(9).0, 9);
}

#[test]
fn m4_block_product() {
    let mut x = [1u64, 2, 3, 4];
    matrix_mul_block(&mut x);
    assert_eq!(x, [34, 23, 50, 39]);
}

#[test]
fn m4_combination() {
    let mut x = [1u64, 2, 3, 4];
    combine_m4_prods(&mut x, [10, 20, 30, 40]);
    assert_eq!(x, [11, 22, 33, 44]);
}

#[test]
fn external_matrix_product() {
    let mut x = [1u64, 2, 3, 4, 5, 6, 7, 8, 9, 10, 11, 12];
    external_matrix_with_u64_arithmetic(&mut x);
    assert_eq!(x, [328, 236, 392, 300, 392, 284, 456, 348, 456, 332, 520, 396]);
    let mut y = [0xffff_ffffu64; 12];
    external_matrix_with_u64_arithmetic(&mut y);
    assert_eq!(y[0], 0xffff_ffffu64 * 64);
}

#[test]
fn kernel_exit_codec_round_trip() {
    for (pc, k) in [(0u32, false), (0x0102_0304, true), (u32::MAX, true)] {
        let w = encode_kernel_exit(pc, k);
        assert_eq!(decode_kernel_exit(&w), Ok((pc, k)));
    }
    assert_eq!(encode_kernel_exit(7, true), U256::from(7u64 + (1u64 << 32)));
}

#[test]
fn kernel_exit_codec_rejects_other_flags() {
    assert_eq!(decode_kernel_exit(&U256::from(2u64 << 32)), Err(InvariantViolation));
    assert_eq!(decode_kernel_exit(&(U256::from(1u64) << 64)), Err(InvariantViolation));
}

#[test]
fn halves_of_a_word() {
    let w = U256([0x1111_1111_2222_2222, 3, 0, 0xffff_ffff_0000_0000]);
    assert_eq!(half_limbs(&w), [0x2222_2222, 0x1111_1111, 3, 0, 0, 0, 0, 0xffff_ffff]);
}

#[test]
fn pop_beyond_the_stack_fails_and_keeps_the_height() {
    let memory = MemoryState::new();
    let traces = Traces::new();
    for (h, k) in [(0u32, 1usize), (1, 2), (0, 2)] {
        let mut regs = RegistersState::new(0, false, 0, h);
        let mut row = CpuColumnsView::new();
        let r = stack_pop_with_log_and_fill(k, &mut regs, &memory, &traces, &mut row);
        assert_eq!(r.err(), Some(ProgramError::StackUnderflow));
        assert_eq!(regs.stack_len, h);
    }
    let mut regs = RegistersState::new(0, false, 0, 3);
    let mut row = CpuColumnsView::new();
    let popped = stack_pop_with_log_and_fill(2, &mut regs, &memory, &traces, &mut row).unwrap();
    assert_eq!(popped.len(), 2);
    assert_eq!(regs.stack_len, 1);
}
