//! The memory-access protocol of a CPU row: every read or write is made
//! through a fixed channel, logged once, and mirrored in the channel's columns.
use vstd::prelude::*;

use ethereum_types::U256;

use crate::field::GoldilocksField;
use crate::memory::{
    read_op, stack_address, write_op, MemoryAddress, MemoryChannel, MemoryOp, MemoryState,
    NUM_GP_CHANNELS,
};
use crate::state::{ProgramError, RegistersState};
use crate::traces::{channel_columns, CpuColumnsView, MemoryChannelView, Traces};
use crate::word::half_limbs;

verus! {

/// Channel `n` is filled with `columns` and the other channels and the
/// witness columns are as they were.
pub open spec fn only_channel_set(before: CpuColumnsView, after: CpuColumnsView, n: int, columns: MemoryChannelView) -> bool {
    &&& after.mem_channels[n] == columns
    &&& forall|i: int| 0 <= i < NUM_GP_CHANNELS && i != n ==> #[trigger] after.mem_channels[i] == before.mem_channels[i]
    &&& after.diff_pinv == before.diff_pinv
}

/// The columns of an access of `value` at `address`.
fn fill_columns(is_read: bool, address: MemoryAddress, value: &U256) -> (r: MemoryChannelView)
    ensures
        r == channel_columns(is_read, address, *value),
{
    let h = half_limbs(value);
    MemoryChannelView {
        used: GoldilocksField::one(),
        is_read: GoldilocksField::from_bool(is_read),
        addr_context: GoldilocksField(address.context as u64),
        addr_segment: GoldilocksField(address.segment as u64),
        addr_virtual: GoldilocksField(address.virt as u64),
        value: [
            GoldilocksField::from_canonical_u32(h[0]),
            GoldilocksField::from_canonical_u32(h[1]),
            GoldilocksField::from_canonical_u32(h[2]),
            GoldilocksField::from_canonical_u32(h[3]),
            GoldilocksField::from_canonical_u32(h[4]),
            GoldilocksField::from_canonical_u32(h[5]),
            GoldilocksField::from_canonical_u32(h[6]),
            GoldilocksField::from_canonical_u32(h[7]),
        ],
    }
}

/// Reads `address` through general-purpose channel `n`.
pub fn mem_read_gp_with_log_and_fill(
    n: usize,
    address: MemoryAddress,
    memory_state: &MemoryState,
    traces: &Traces,
    row: &mut CpuColumnsView,
) -> (r: (U256, MemoryOp))
    requires
        n < NUM_GP_CHANNELS,
    ensures
        r.0 == memory_state.value(address),
        r.1 == read_op(MemoryChannel::GeneralPurpose(n), traces.spec_clock(), address, r.0),
        only_channel_set(*old(row), *final(row), n as int, channel_columns(true, address, r.0)),
{
    let val = memory_state.get(address);
    let op = MemoryOp {
        filter: true,
        clock: traces.clock(),
        channel: MemoryChannel::GeneralPurpose(n),
        address,
        kind: crate::memory::MemoryOpKind::Read,
        value: val,
    };
    let columns = fill_columns(true, address, &val);
    row.set_channel(n, columns);
    (val, op)
}

/// Writes `val` at `address` through general-purpose channel `n`. The store
/// itself is updated later, from the log.
pub fn mem_write_gp_log_and_fill(
    n: usize,
    address: MemoryAddress,
    traces: &Traces,
    row: &mut CpuColumnsView,
    val: U256,
) -> (r: MemoryOp)
    requires
        n < NUM_GP_CHANNELS,
    ensures
        r == write_op(MemoryChannel::GeneralPurpose(n), traces.spec_clock(), address, val),
        only_channel_set(*old(row), *final(row), n as int, channel_columns(false, address, val)),
{
    let op = MemoryOp {
        filter: true,
        clock: traces.clock(),
        channel: MemoryChannel::GeneralPurpose(n),
        address,
        kind: crate::memory::MemoryOpKind::Write,
        value: val,
    };
    let columns = fill_columns(false, address, &val);
    row.set_channel(n, columns);
    op
}

/// The slot of the element `i` places below the top of the stack.
pub open spec fn from_top(regs: RegistersState, i: int) -> MemoryAddress {
    stack_address(regs.context, regs.stack_len - 1 - i)
}

/// Pops the top `k` elements, the top one first, through channels `0..k`.
/// Fails, changing nothing, when fewer than `k` elements are on the stack.
pub fn stack_pop_with_log_and_fill(
    k: usize,
    registers_state: &mut RegistersState,
    memory_state: &MemoryState,
    traces: &Traces,
    row: &mut CpuColumnsView,
) -> (r: Result<Vec<(U256, MemoryOp)>, ProgramError>)
    requires
        k <= NUM_GP_CHANNELS,
    ensures
        (old(registers_state).stack_len < k) <==> r is Err,
        r is Err ==> r == Err::<Vec<(U256, MemoryOp)>, ProgramError>(ProgramError::StackUnderflow)
            && *final(registers_state) == *old(registers_state) && *final(row) == *old(row),
        r matches Ok(v) ==> {
            &&& *final(registers_state) == (RegistersState {
                stack_len: (old(registers_state).stack_len - k) as u32,
                ..*old(registers_state)
            })
            &&& v@.len() == k
            &&& forall|i: int| 0 <= i < k ==> {
                let a = #[trigger] from_top(*old(registers_state), i);
                &&& v@[i].0 == memory_state.value(a)
                &&& v@[i].1 == read_op(MemoryChannel::GeneralPurpose(i as usize), traces.spec_clock(), a, v@[i].0)
                &&& final(row).mem_channels[i] == channel_columns(true, a, v@[i].0)
            }
            &&& forall|i: int| k <= i < NUM_GP_CHANNELS ==> #[trigger] final(row).mem_channels[i] == old(row).mem_channels[i]
            &&& final(row).diff_pinv == old(row).diff_pinv
        },
{
    if (registers_state.stack_len as usize) < k {
        return Err(ProgramError::StackUnderflow);
    }
    let mut result: Vec<(U256, MemoryOp)> = Vec::new();
    let mut i: usize = 0;
    while i < k
        invariant
            i <= k <= NUM_GP_CHANNELS,
            k <= registers_state.stack_len,
            *registers_state == *old(registers_state),
            result@.len() == i,
            forall|j: int| 0 <= j < i ==> {
                let a = #[trigger] from_top(*old(registers_state), j);
                &&& result@[j].0 == memory_state.value(a)
                &&& result@[j].1 == read_op(MemoryChannel::GeneralPurpose(j as usize), traces.spec_clock(), a, result@[j].0)
                &&& row.mem_channels[j] == channel_columns(true, a, result@[j].0)
            },
            forall|j: int| i <= j < NUM_GP_CHANNELS ==> #[trigger] row.mem_channels[j] == old(row).mem_channels[j],
            row.diff_pinv == old(row).diff_pinv,
        decreases k - i,
    {
        let address = MemoryAddress::new(
            registers_state.context,
            crate::memory::STACK_SEGMENT,
            (registers_state.stack_len as usize) - 1 - i,
        );
        assert(address == from_top(*old(registers_state), i as int));
        let entry = mem_read_gp_with_log_and_fill(i, address, memory_state, traces, row);
        result.push(entry);
        i = i + 1;
    }
    registers_state.stack_len = registers_state.stack_len - (k as u32);
    Ok(result)
}

/// Pushes `val` through the last general-purpose channel.
pub fn stack_push_log_and_fill(
    registers_state: &mut RegistersState,
    traces: &Traces,
    row: &mut CpuColumnsView,
    val: U256,
) -> (r: MemoryOp)
    requires
        old(registers_state).stack_len < u32::MAX,
    ensures
        r == write_op(
            MemoryChannel::GeneralPurpose((NUM_GP_CHANNELS - 1) as usize),
            traces.spec_clock(),
            stack_address(old(registers_state).context, old(registers_state).stack_len as int),
            val,
        ),
        *final(registers_state) == (RegistersState {
            stack_len: (old(registers_state).stack_len + 1) as u32,
            ..*old(registers_state)
        }),
        only_channel_set(
            *old(row),
            *final(row),
            NUM_GP_CHANNELS - 1,
            channel_columns(
                false,
                stack_address(old(registers_state).context, old(registers_state).stack_len as int),
                val,
            ),
        ),
{
    let address = MemoryAddress::new(
        registers_state.context,
        crate::memory::STACK_SEGMENT,
        registers_state.stack_len as usize,
    );
    let op = mem_write_gp_log_and_fill(NUM_GP_CHANNELS - 1, address, traces, row, val);
    registers_state.stack_len = registers_state.stack_len + 1;
    op
}

} // verus!
